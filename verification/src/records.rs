use vstd::prelude::*;
use vstd::string::*;

verus! {

/// The character of one decimal digit.
pub open spec fn digit_char(d: nat) -> char {
    if d == 0 {
        '0'
    } else if d == 1 {
        '1'
    } else if d == 2 {
        '2'
    } else if d == 3 {
        '3'
    } else if d == 4 {
        '4'
    } else if d == 5 {
        '5'
    } else if d == 6 {
        '6'
    } else if d == 7 {
        '7'
    } else if d == 8 {
        '8'
    } else {
        '9'
    }
}

/// The decimal numeral of `n`, most significant digit first, without
/// leading zeros.
pub open spec fn numeral(n: nat) -> Seq<char>
    decreases n,
{
    if n < 10 {
        seq![digit_char(n)]
    } else {
        numeral(n / 10).push(digit_char(n % 10))
    }
}

/// The number that a decimal digit stands for.
pub open spec fn digit_value(c: char) -> nat {
    if c == '0' {
        0
    } else if c == '1' {
        1
    } else if c == '2' {
        2
    } else if c == '3' {
        3
    } else if c == '4' {
        4
    } else if c == '5' {
        5
    } else if c == '6' {
        6
    } else if c == '7' {
        7
    } else if c == '8' {
        8
    } else {
        9
    }
}

/// The number that a sequence of decimal digits stands for, read in
/// positional notation.
pub open spec fn numeral_value(digits: Seq<char>) -> nat
    decreases digits.len(),
{
    if digits.len() == 0 {
        0
    } else {
        10 * numeral_value(digits.drop_last()) + digit_value(digits.last())
    }
}

/// `count` spaces.
pub open spec fn spaces(count: nat) -> Seq<char> {
    Seq::new(count, |i: int| ' ')
}

/// `field` moved to the right edge of a column of `width` characters. A
/// field wider than the column is left as it is.
pub open spec fn right_aligned(field: Seq<char>, width: nat) -> Seq<char> {
    if field.len() >= width {
        field
    } else {
        spaces((width - field.len()) as nat) + field
    }
}

/// One coordinate record: the tag, the atom's index in a column of 6, the
/// residue and chain placeholders, then `x` in a column of 16 and `y` and
/// `z` in columns of 8, with single spaces between the columns.
pub open spec fn record(index: nat, x: Seq<char>, y: Seq<char>, z: Seq<char>) -> Seq<char> {
    "ATOM "@ + right_aligned(numeral(index), 6) + " CA XXX X "@ + right_aligned(x, 16) + " "@
        + right_aligned(y, 8) + " "@ + right_aligned(z, 8)
}

/// The records of a chain: none for the two seed placeholders at its
/// start, then one per atom, numbered from 1.
pub open spec fn records(coordinates: Seq<(Seq<char>, Seq<char>, Seq<char>)>) -> Seq<Seq<char>> {
    Seq::new(
        if coordinates.len() >= 2 {
            (coordinates.len() - 2) as nat
        } else {
            0
        },
        |k: int| record((k + 1) as nat, coordinates[k + 2].0, coordinates[k + 2].1, coordinates[k + 2].2),
    )
}

/// What a chain of formatted coordinates says, as sequences of characters.
pub open spec fn formatted_view(coordinates: Seq<(String, String, String)>) -> Seq<
    (Seq<char>, Seq<char>, Seq<char>),
> {
    Seq::new(coordinates.len(), |i: int| (coordinates[i].0@, coordinates[i].1@, coordinates[i].2@))
}

/// Reading a numeral back gives the number it was written for, so two
/// different indices never share a numeral.
pub proof fn lemma_numeral_value(n: nat)
    ensures
        numeral_value(numeral(n)) == n,
    decreases n,
{
    if n < 10 {
        assert(numeral(n).drop_last() =~= Seq::<char>::empty());
        reveal_with_fuel(numeral_value, 2);
    } else {
        lemma_numeral_value(n / 10);
        assert(numeral(n).drop_last() =~= numeral(n / 10));
    }
}

/// A numeral has at least one digit, and a number below a million has at
/// most six.
pub proof fn lemma_numeral_len(n: nat)
    ensures
        numeral(n).len() >= 1,
        n < 1_000_000 ==> numeral(n).len() <= 6,
    decreases n,
{
    reveal_with_fuel(numeral, 7);
    if n >= 10 {
        lemma_numeral_len(n / 10);
    }
}

/// A field that fits its column fills it exactly.
pub proof fn lemma_right_aligned_len(field: Seq<char>, width: nat)
    ensures
        right_aligned(field, width).len() == if field.len() >= width {
            field.len()
        } else {
            width
        },
        right_aligned(field, width).len() >= width,
{
}

/// Records have fixed columns: where the index is below a million and
/// each coordinate fits its column, a record is 55 characters long.
pub proof fn lemma_record_width(index: nat, x: Seq<char>, y: Seq<char>, z: Seq<char>)
    requires
        index < 1_000_000,
        x.len() <= 16,
        y.len() <= 8,
        z.len() <= 8,
    ensures
        record(index, x, y, z).len() == 55,
{
    reveal_strlit("ATOM ");
    reveal_strlit(" CA XXX X ");
    reveal_strlit(" ");
    lemma_numeral_len(index);
    lemma_right_aligned_len(numeral(index), 6);
    lemma_right_aligned_len(x, 16);
    lemma_right_aligned_len(y, 8);
    lemma_right_aligned_len(z, 8);
}

fn digit_str(d: usize) -> (s: &'static str)
    requires
        d < 10,
    ensures
        s@ == seq![digit_char(d as nat)],
{
    proof {
        reveal_strlit("0");
        reveal_strlit("1");
        reveal_strlit("2");
        reveal_strlit("3");
        reveal_strlit("4");
        reveal_strlit("5");
        reveal_strlit("6");
        reveal_strlit("7");
        reveal_strlit("8");
        reveal_strlit("9");
    }
    let s = if d == 0 {
        "0"
    } else if d == 1 {
        "1"
    } else if d == 2 {
        "2"
    } else if d == 3 {
        "3"
    } else if d == 4 {
        "4"
    } else if d == 5 {
        "5"
    } else if d == 6 {
        "6"
    } else if d == 7 {
        "7"
    } else if d == 8 {
        "8"
    } else {
        "9"
    };
    assert(s@ =~= seq![digit_char(d as nat)]);
    s
}

/// Writes `n` in decimal.
pub fn decimal(n: usize) -> (s: String)
    ensures
        s@ == numeral(n as nat),
    decreases n,
{
    if n < 10 {
        String::from_str(digit_str(n))
    } else {
        let mut s = decimal(n / 10);
        let ghost head = s@;
        s.append(digit_str(n % 10));
        assert(s@ =~= head.push(digit_char((n % 10) as nat)));
        s
    }
}

/// Pads `field` with spaces on the left up to `width` characters.
pub fn align_right(field: &str, width: usize) -> (s: String)
    ensures
        s@ == right_aligned(field@, width as nat),
{
    let len: usize = field.unicode_len();
    let mut s = String::new();
    let mut i: usize = len;
    while i < width
        invariant
            len == field@.len(),
            len <= i,
            i <= width || i == len,
            s@ == spaces((i - len) as nat),
        decreases width - i,
    {
        proof {
            reveal_strlit(" ");
        }
        s.append(" ");
        assert(s@ =~= spaces((i + 1 - len) as nat));
        i += 1;
    }
    s.append(field);
    assert(s@ =~= right_aligned(field@, width as nat));
    s
}

/// Frames one coordinate record from the atom's index and its three
/// coordinates, each already written out as text.
pub fn coordinate_record(index: usize, x: &str, y: &str, z: &str) -> (line: String)
    ensures
        line@ == record(index as nat, x@, y@, z@),
{
    let number = decimal(index);
    let mut line = String::from_str("ATOM ");
    line.append(align_right(number.as_str(), 6).as_str());
    line.append(" CA XXX X ");
    line.append(align_right(x, 16).as_str());
    line.append(" ");
    line.append(align_right(y, 8).as_str());
    line.append(" ");
    line.append(align_right(z, 8).as_str());
    line
}

/// Frames the records of a whole chain, given each atom's coordinates as
/// text: the first two atoms are seed placeholders and get no record, the
/// others are numbered from 1 in chain order.
pub fn to_pdb(coordinates: &Vec<(String, String, String)>) -> (lines: Vec<String>)
    ensures
        lines@.len() == records(formatted_view(coordinates@)).len(),
        forall|k: int|
            0 <= k < lines@.len() ==> (#[trigger] lines@[k])@ == records(
                formatted_view(coordinates@),
            )[k],
{
    let mut lines: Vec<String> = Vec::new();
    let mut i: usize = 2;
    while i < coordinates.len()
        invariant
            2 <= i,
            i <= coordinates.len() || i == 2,
            lines@.len() == i - 2,
            forall|k: int|
                0 <= k < lines@.len() ==> (#[trigger] lines@[k])@ == records(
                    formatted_view(coordinates@),
                )[k],
        decreases coordinates.len() - i,
    {
        let atom = &coordinates[i];
        let line = coordinate_record(i - 1, atom.0.as_str(), atom.1.as_str(), atom.2.as_str());
        lines.push(line);
        i += 1;
    }
    lines
}

} // verus!
