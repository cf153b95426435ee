//! Character-level helpers: extracting the characters of a string,
//! lexicographic ordering of names, and the display-name derivation
//! applied to leaf file names.
use vstd::prelude::*;

verus! {

broadcast use vstd::string::group_string_axioms;

/// Collects the characters of a string slice into a vector.
pub fn chars_of(s: &str) -> (r: Vec<char>)
    ensures
        r@ == s@,
{
    let mut r: Vec<char> = Vec::new();
    for c in it: s.chars()
        invariant
            it.seq() == s@,
            r@ == it.seq().take(it.index() as int),
    {
        r.push(c);
    }
    proof {
        assert(r@ =~= s@);
    }
    r
}

/// Character-for-character equality of two string slices.
pub fn str_eq(a: &str, b: &str) -> (r: bool)
    ensures
        r == (a@ == b@),
{
    let va = chars_of(a);
    let vb = chars_of(b);
    if va.len() != vb.len() {
        return false;
    }
    for i in 0..va.len()
        invariant
            va.len() == vb.len(),
            va@ == a@,
            vb@ == b@,
            forall|j: int| 0 <= j < i ==> va@[j] == vb@[j],
    {
        if va[i] != vb[i] {
            return false;
        }
    }
    proof {
        assert(a@ =~= b@);
    }
    true
}

/// Strict lexicographic order on character sequences, comparing
/// characters by their Unicode scalar value.
pub open spec fn lex_lt(a: Seq<char>, b: Seq<char>) -> bool
    decreases a.len(),
{
    if b.len() == 0 {
        false
    } else if a.len() == 0 {
        true
    } else if (a.first() as u32) < (b.first() as u32) {
        true
    } else if a.first() != b.first() {
        false
    } else {
        lex_lt(a.drop_first(), b.drop_first())
    }
}

/// Non-strict counterpart of `lex_lt`.
pub open spec fn lex_le(a: Seq<char>, b: Seq<char>) -> bool {
    !lex_lt(b, a)
}

/// The lexicographic order is total: two sequences are either equal or
/// strictly ordered one way.
pub proof fn lemma_lex_total(a: Seq<char>, b: Seq<char>)
    ensures
        lex_lt(a, b) || lex_lt(b, a) || a == b,
        lex_lt(a, b) ==> !lex_lt(b, a),
        lex_lt(a, b) ==> a != b,
    decreases a.len(),
{
    if a.len() == 0 || b.len() == 0 {
        if a.len() == 0 && b.len() == 0 {
            assert(a =~= b);
        }
    } else {
        let x = a.first();
        let y = b.first();
        if x == y {
            lemma_lex_total(a.drop_first(), b.drop_first());
            if a.drop_first() == b.drop_first() {
                assert forall|i: int| 0 <= i < a.len() implies a[i] == b[i] by {
                    if i > 0 {
                        assert(a[i] == a.drop_first()[i - 1]);
                        assert(b[i] == b.drop_first()[i - 1]);
                    }
                }
                assert(a =~= b);
            }
            if a == b {
                assert(a.drop_first() =~= b.drop_first());
            }
        } else {
            vstd::utf8::char_u32_cast(x, x as u32);
            vstd::utf8::char_u32_cast(y, y as u32);
            assert((x as u32) != (y as u32));
        }
    }
}

/// Compares two character vectors in the order of `lex_lt`.
pub fn chars_lt(a: &Vec<char>, b: &Vec<char>) -> (r: bool)
    ensures
        r == lex_lt(a@, b@),
{
    let n: usize = if a.len() < b.len() {
        a.len()
    } else {
        b.len()
    };
    proof {
        assert(a@.skip(0) =~= a@);
        assert(b@.skip(0) =~= b@);
    }
    for i in 0..n
        invariant
            n <= a@.len() && n <= b@.len(),
            n == if a@.len() < b@.len() {
                a@.len()
            } else {
                b@.len()
            },
            forall|j: int| 0 <= j < i ==> a@[j] == b@[j],
            lex_lt(a@, b@) == lex_lt(a@.skip(i as int), b@.skip(i as int)),
    {
        let ca = a[i];
        let cb = b[i];
        proof {
            assert(a@.skip(i as int).first() == a@[i as int]);
            assert(b@.skip(i as int).first() == b@[i as int]);
            assert(a@.skip(i as int).drop_first() =~= a@.skip(i + 1));
            assert(b@.skip(i as int).drop_first() =~= b@.skip(i + 1));
        }
        if (ca as u32) < (cb as u32) {
            return true;
        }
        if ca != cb {
            return false;
        }
    }
    proof {
        assert(a@.skip(n as int).len() == a@.len() - n);
        assert(b@.skip(n as int).len() == b@.len() - n);
    }
    a.len() < b.len()
}

/// The suffix that marks a leaf file, as characters.
pub open spec fn json_suffix() -> Seq<char> {
    ".json"@
}

/// True when `name` ends in the leaf-file suffix.
pub open spec fn has_json_suffix(name: Seq<char>) -> bool {
    name.len() >= 5 && name.skip(name.len() - 5) == json_suffix()
}

/// The display name of a leaf file: the suffix is stripped and
/// underscores become spaces.
pub open spec fn spec_display_name(filename: Seq<char>) -> Seq<char> {
    let stem = if has_json_suffix(filename) {
        filename.take(filename.len() - 5)
    } else {
        filename
    };
    stem.map_values(|c: char| if c == '_' { ' ' } else { c })
}

/// Checks whether the characters in `name` end in the leaf-file suffix.
pub fn ends_in_json(name: &Vec<char>) -> (r: bool)
    ensures
        r == has_json_suffix(name@),
{
    proof {
        reveal_strlit(".json");
    }
    let n = name.len();
    if n < 5 {
        return false;
    }
    let r = name[n - 1] == 'n' && name[n - 2] == 'o' && name[n - 3] == 's' && name[n - 4] == 'j'
        && name[n - 5] == '.';
    proof {
        let s = name@.skip(n as int - 5);
        assert(s.len() == 5);
        if r {
            assert(s =~= json_suffix());
        } else {
            if s == json_suffix() {
                assert(s[0] == '.' && s[1] == 'j' && s[2] == 's' && s[3] == 'o' && s[4] == 'n');
                assert(name@[n as int - 5] == '.' && name@[n as int - 4] == 'j' && name@[n as int
                    - 3] == 's' && name@[n as int - 2] == 'o' && name@[n as int - 1] == 'n');
            }
        }
    }
    r
}

/// Computes the display name of a leaf file name, as `spec_display_name`
/// describes.
pub fn display_name(filename: &str) -> (r: String)
    ensures
        r@ == spec_display_name(filename@),
{
    let chars = chars_of(filename);
    let stem_len: usize = if ends_in_json(&chars) {
        chars.len() - 5
    } else {
        chars.len()
    };
    let mut out: Vec<char> = Vec::new();
    for i in 0..stem_len
        invariant
            stem_len <= chars@.len(),
            chars@ == filename@,
            stem_len == if has_json_suffix(filename@) {
                filename@.len() - 5
            } else {
                filename@.len() as int
            },
            out@.len() == i,
            forall|j: int|
                0 <= j < i ==> out@[j] == (if chars@[j] == '_' {
                    ' '
                } else {
                    chars@[j]
                }),
    {
        let c = chars[i];
        if c == '_' {
            out.push(' ');
        } else {
            out.push(c);
        }
    }
    proof {
        assert(out@ =~= spec_display_name(filename@));
    }
    string_from_chars(&out)
}

/// Relies on `String::from_iter`: collecting characters yields the string
/// made of exactly those characters, in order.
#[verifier::external_body]
pub(crate) fn string_from_chars(v: &Vec<char>) -> (r: String)
    ensures
        r@ == v@,
{
    v.iter().collect()
}

} // verus!
