use backbone::decoder::Output;
use backbone::error::ShapeError;

fn scale(x: f64) -> f64 {
    x * 180.0
}

fn reduce(sin: f64, cos: f64) -> f64 {
    sin.atan2(cos).to_degrees()
}

fn tag(sin: i32, cos: i32) -> (i32, i32) {
    (sin, cos)
}

#[test]
fn decode_rejects_a_length_of_ten() {
    let output = Output::new(vec![0.5; 10], 3.8);
    assert_eq!(output.decode(scale, reduce), Err(ShapeError::InvalidShape));
}

#[test]
fn decode_rejects_every_length_that_is_no_multiple_of_three() {
    for len in [1usize, 2, 4, 5, 7, 8, 10, 11] {
        let output = Output::new(vec![0.25; len], 3.8);
        assert_eq!(output.decode(scale, reduce), Err(ShapeError::InvalidShape));
    }
}

#[test]
fn decode_accepts_the_empty_vector() {
    let output = Output::new(Vec::<f64>::new(), 3.8);
    assert_eq!(output.decode(scale, reduce), Ok(vec![]));
}

#[test]
fn decode_reads_the_three_channels_in_order() {
    let output = Output::new(vec![1, 2, 3, 10, 20, 30, 100, 200, 300], 0);
    let decoded = output.decode(|x: i32| (x, 0), tag);
    assert_eq!(
        decoded,
        Ok(vec![((1, 0), (10, 100)), ((2, 0), (20, 200)), ((3, 0), (30, 300))])
    );
}

#[test]
fn decode_scales_alpha_and_reduces_theta() {
    let output = Output::new(vec![0.5, 0.25, 1.0, 0.0, 0.0, -1.0], 3.8);
    let decoded = output.decode(scale, reduce).unwrap();
    assert_eq!(decoded.len(), 2);
    assert_eq!(decoded[0].0, 90.0);
    assert_eq!(decoded[1].0, 45.0);
    assert!((decoded[0].1 - 90.0).abs() < 1e-9);
    assert!((decoded[1].1 - 180.0).abs() < 1e-9);
}

#[test]
fn shape_is_told_from_the_length() {
    for len in 0usize..13 {
        let output = Output::new(vec![0u8; len], 0);
        assert_eq!(output.is_well_shaped(), len % 3 == 0);
        assert_eq!(output.decode(|x: u8| x, |s: u8, c: u8| s + c).is_ok(), len % 3 == 0);
    }
}

#[test]
fn n_is_a_third_of_the_length() {
    assert_eq!(Output::new(Vec::<u8>::new(), 0).n(), 0);
    assert_eq!(Output::new(vec![0u8; 3], 0).n(), 1);
    assert_eq!(Output::new(vec![0u8; 12], 0).n(), 4);
}

#[test]
fn channels_of_a_well_shaped_vector() {
    let output = Output::new(vec![1, 2, 3, 4, 5, 6], 7);
    assert_eq!(output.bond_length(), 7);
    assert_eq!(output.vector(), &vec![1, 2, 3, 4, 5, 6]);
    assert_eq!(output.clone().vector(), output.vector());
    assert_eq!(output.alpha(|x: i32| x * 180), vec![180, 360]);
    assert_eq!(output.sin_theta(), vec![3, 4]);
    assert_eq!(output.cos_theta(), vec![5, 6]);
    assert_eq!(output.theta(tag), vec![(3, 5), (4, 6)]);
}

#[test]
fn channels_put_together_give_the_vector_back() {
    for len in [0usize, 3, 6, 9, 30] {
        let vector: Vec<usize> = (0..len).collect();
        let output = Output::new(vector.clone(), 0);
        let mut joined = output.alpha(|x: usize| x);
        joined.extend(output.sin_theta());
        joined.extend(output.cos_theta());
        assert_eq!(joined, vector);
        assert_eq!(output.sin_theta().len(), len / 3);
        assert_eq!(output.cos_theta().len(), len / 3);
    }
}
