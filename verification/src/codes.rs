use vstd::prelude::*;
use vstd::string::*;

verus! {

/// Whether `c` is whitespace: one of the 25 characters with the Unicode
/// property White_Space.
pub open spec fn white_space(c: char) -> bool {
    ||| '\u{9}' <= c <= '\u{d}'
    ||| c == ' '
    ||| c == '\u{85}'
    ||| c == '\u{a0}'
    ||| c == '\u{1680}'
    ||| '\u{2000}' <= c <= '\u{200a}'
    ||| c == '\u{2028}'
    ||| c == '\u{2029}'
    ||| c == '\u{202f}'
    ||| c == '\u{205f}'
    ||| c == '\u{3000}'
}

/// Whether `c` is whitespace.
pub fn is_whitespace(c: char) -> (b: bool)
    ensures
        b == white_space(c),
{
    ('\u{9}' <= c && c <= '\u{d}') || c == ' ' || c == '\u{85}' || c == '\u{a0}' || c == '\u{1680}'
        || ('\u{2000}' <= c && c <= '\u{200a}') || c == '\u{2028}' || c == '\u{2029}' || c
        == '\u{202f}' || c == '\u{205f}' || c == '\u{3000}'
}

/// The one-letter codes of the twenty standard amino acids.
pub open spec fn aa_codes() -> Seq<char> {
    seq![
        'A', 'R', 'N', 'D', 'C', 'Q', 'E', 'G', 'H', 'I', 'L', 'K', 'M', 'F', 'P', 'S', 'T', 'W',
        'Y', 'V',
    ]
}

/// The codes of the three secondary structures.
pub open spec fn ss_codes() -> Seq<char> {
    seq!['H', 'E', 'C']
}

/// Position in the line's fields of the amino-acid codes.
pub const AA_FIELD: usize = 4;

/// Position in the line's fields of the secondary-structure codes.
pub const SS_FIELD: usize = 5;

/// A field starts at `i`: a character that is no whitespace, at the start
/// of the line or directly after whitespace.
pub open spec fn field_start(s: Seq<char>, i: int) -> bool {
    &&& 0 <= i < s.len()
    &&& !white_space(s[i])
    &&& (i == 0 || white_space(s[i - 1]))
}

/// Number of fields that start before position `i`.
pub open spec fn starts_before(s: Seq<char>, i: int) -> nat
    decreases i,
{
    if i <= 0 {
        0
    } else {
        starts_before(s, i - 1) + if field_start(s, i - 1) {
            1nat
        } else {
            0nat
        }
    }
}

/// Number of whitespace-separated fields of a line.
pub open spec fn field_count(s: Seq<char>) -> nat {
    starts_before(s, s.len() as int)
}

/// The character at `j` belongs to the field at position `field`, counted from 0.
pub open spec fn in_field(s: Seq<char>, j: int, field: nat) -> bool {
    &&& 0 <= j < s.len()
    &&& !white_space(s[j])
    &&& starts_before(s, j + 1) == field + 1
}

/// The character at `j` is allowed where it stands: one of `aa` if it
/// belongs to the amino-acid field, one of `ss` if it belongs to the
/// secondary-structure field, anything elsewhere.
pub open spec fn allowed_at(s: Seq<char>, j: int, aa: Seq<char>, ss: Seq<char>) -> bool {
    &&& in_field(s, j, AA_FIELD as nat) ==> aa.contains(s[j])
    &&& in_field(s, j, SS_FIELD as nat) ==> ss.contains(s[j])
}

/// Every character of the amino-acid field is one of `aa`, and every
/// character of the secondary-structure field is one of `ss`.
pub open spec fn fields_within(s: Seq<char>, aa: Seq<char>, ss: Seq<char>) -> bool {
    forall|j: int| 0 <= j < s.len() ==> #[trigger] allowed_at(s, j, aa, ss)
}

/// A line is correct when its two code fields hold standard codes only.
pub open spec fn correct(s: Seq<char>) -> bool {
    fields_within(s, aa_codes(), ss_codes())
}

/// A line is accepted when it has both code fields and is correct.
pub open spec fn accepted(s: Seq<char>) -> bool {
    field_count(s) > SS_FIELD && correct(s)
}

/// Counting field starts never goes down as the line is read further.
pub proof fn lemma_starts_monotone(s: Seq<char>, i: int, j: int)
    requires
        i <= j,
    ensures
        starts_before(s, i) <= starts_before(s, j),
    decreases j - i,
{
    if i < j {
        lemma_starts_monotone(s, i, j - 1);
    }
}

/// A character can only belong to a field that the line has: a line with
/// at most `field` fields holds no character of the field at position
/// `field`.
pub proof fn lemma_field_in_line(s: Seq<char>, j: int, field: nat)
    requires
        in_field(s, j, field),
    ensures
        field < field_count(s),
{
    lemma_starts_monotone(s, j + 1, s.len() as int);
}

/// Every field that the line has holds at least one character, the one
/// it starts with.
pub proof fn lemma_field_has_start(s: Seq<char>, field: nat)
    requires
        field < field_count(s),
    ensures
        exists|j: int| field_start(s, j) && #[trigger] in_field(s, j, field),
{
    lemma_start_before(s, s.len() as int, field);
}

proof fn lemma_start_before(s: Seq<char>, i: int, field: nat)
    requires
        0 <= i <= s.len(),
        field < starts_before(s, i),
    ensures
        exists|j: int| j < i && field_start(s, j) && #[trigger] in_field(s, j, field),
    decreases i,
{
    if field_start(s, i - 1) && starts_before(s, i) == field + 1 {
        assert(in_field(s, i - 1, field));
    } else {
        lemma_start_before(s, i - 1, field);
    }
}

/// The standard amino-acid alphabet.
pub fn amino_acid_codes() -> (codes: Vec<char>)
    ensures
        codes@ == aa_codes(),
{
    let codes = vec![
        'A', 'R', 'N', 'D', 'C', 'Q', 'E', 'G', 'H', 'I', 'L', 'K', 'M', 'F', 'P', 'S', 'T', 'W',
        'Y', 'V',
    ];
    assert(codes@ =~= aa_codes());
    codes
}

/// The standard secondary-structure alphabet.
pub fn secondary_structure_codes() -> (codes: Vec<char>)
    ensures
        codes@ == ss_codes(),
{
    let codes = vec!['H', 'E', 'C'];
    assert(codes@ =~= ss_codes());
    codes
}

/// Whether `c` is one of `alphabet`.
pub fn is_code(alphabet: &Vec<char>, c: char) -> (found: bool)
    ensures
        found == alphabet@.contains(c),
{
    let mut i: usize = 0;
    while i < alphabet.len()
        invariant
            i <= alphabet@.len(),
            forall|k: int| 0 <= k < i ==> alphabet@[k] != c,
        decreases alphabet.len() - i,
    {
        if alphabet[i] == c {
            return true;
        }
        i += 1;
    }
    false
}

/// Counts the whitespace-separated fields of a line.
pub fn count_fields(line: &str) -> (count: usize)
    ensures
        count == field_count(line@),
{
    let len: usize = line.unicode_len();
    let mut count: usize = 0;
    let mut after_space: bool = true;
    let mut j: usize = 0;
    while j < len
        invariant
            len == line@.len(),
            j <= len,
            count == starts_before(line@, j as int),
            count <= j,
            after_space == (j == 0 || white_space(line@[j - 1])),
        decreases len - j,
    {
        let c = line.get_char(j);
        let space = is_whitespace(c);
        if !space && after_space {
            count += 1;
        }
        after_space = space;
        j += 1;
    }
    count
}

/// Validates a line against two alphabets: the characters of its
/// amino-acid field must all be in `aa`, those of its
/// secondary-structure field in `ss`.
pub fn check_fields(line: &str, aa: &Vec<char>, ss: &Vec<char>) -> (ok: bool)
    ensures
        ok == fields_within(line@, aa@, ss@),
{
    let len: usize = line.unicode_len();
    let mut ok: bool = true;
    let mut count: usize = 0;
    let mut after_space: bool = true;
    let mut j: usize = 0;
    while j < len
        invariant
            len == line@.len(),
            j <= len,
            count == starts_before(line@, j as int),
            count <= j,
            after_space == (j == 0 || white_space(line@[j - 1])),
            ok == forall|k: int| 0 <= k < j ==> #[trigger] allowed_at(line@, k, aa@, ss@),
        decreases len - j,
    {
        let ghost ok_before = ok;
        let c = line.get_char(j);
        let space = is_whitespace(c);
        if !space {
            if after_space {
                count += 1;
            }
            if count == AA_FIELD + 1 && !is_code(aa, c) {
                ok = false;
            }
            if count == SS_FIELD + 1 && !is_code(ss, c) {
                ok = false;
            }
        }
        proof {
            assert(starts_before(line@, j + 1) == count);
            if ok_before {
                assert(ok == allowed_at(line@, j as int, aa@, ss@));
            }
        }
        after_space = space;
        j += 1;
    }
    ok
}

/// Validates a line against the standard alphabets: it must have both
/// code fields, and they must hold standard codes only. A line that lacks
/// a code field fails like any other.
pub fn check_if_correct(line: &str) -> (ok: bool)
    ensures
        ok == accepted(line@),
{
    if count_fields(line) > SS_FIELD {
        let aa = amino_acid_codes();
        let ss = secondary_structure_codes();
        check_fields(line, &aa, &ss)
    } else {
        false
    }
}

/// Validates any line: `None` where a code field is missing, otherwise
/// whether the line is correct.
pub fn check_line(line: &str) -> (verdict: Option<bool>)
    ensures
        verdict.is_some() <==> field_count(line@) > SS_FIELD,
        verdict.is_some() ==> verdict.unwrap() == correct(line@),
{
    if count_fields(line) > SS_FIELD {
        let aa = amino_acid_codes();
        let ss = secondary_structure_codes();
        Some(check_fields(line, &aa, &ss))
    } else {
        None
    }
}

/// What each line says, as a sequence of characters.
pub open spec fn texts(lines: Seq<String>) -> Seq<Seq<char>> {
    lines.map_values(|line: String| line@)
}

/// The accepted ones among `texts`, in their order.
pub open spec fn accepted_among(texts: Seq<Seq<char>>) -> Seq<Seq<char>> {
    texts.filter(|s: Seq<char>| accepted(s))
}

/// Keeps the accepted lines, in their order; the others are dropped
/// without a report.
pub fn accepted_lines(lines: &Vec<String>) -> (kept: Vec<String>)
    ensures
        texts(kept@) == accepted_among(texts(lines@)),
{
    let mut kept: Vec<String> = Vec::new();
    let mut i: usize = 0;
    proof {
        assert(texts(kept@) =~= accepted_among(texts(lines@.take(0))));
    }
    while i < lines.len()
        invariant
            i <= lines@.len(),
            texts(kept@) == accepted_among(texts(lines@.take(i as int))),
        decreases lines.len() - i,
    {
        let line = &lines[i];
        let keep = check_if_correct(line.as_str());
        proof {
            let before = texts(lines@.take(i as int));
            let now = texts(lines@.take(i + 1));
            assert(now =~= before.push(line@));
            assert(now.drop_last() =~= before);
            reveal(Seq::filter);
        }
        if keep {
            let ghost old_kept = kept@;
            kept.push(line.clone());
            proof {
                assert(texts(kept@) =~= texts(old_kept).push(line@));
            }
        }
        i += 1;
    }
    proof {
        assert(lines@.take(i as int) =~= lines@);
    }
    kept
}

} // verus!
