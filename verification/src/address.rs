use vstd::prelude::*;
use crate::text::{chars_to_string, str_chars};

verus! {

/// A word character — an ASCII letter, digit or underscore: part of an
/// alphanumeric run that an address match may not start or end inside.
pub open spec fn is_word_char(c: char) -> bool {
    (97 <= c as u32 && c as u32 <= 122)  // a-z
    || (65 <= c as u32 && c as u32 <= 90)  // A-Z
    || (48 <= c as u32 && c as u32 <= 57)  // 0-9
    || c == '_'
}

/// The bech32 alphabet: lowercase letters and digits, excluding the
/// ambiguous `1`, `b`, `i` and `o`.
pub open spec fn is_bech32_char(c: char) -> bool {
    (97 <= c as u32 && c as u32 <= 122 && c != 'b' && c != 'i' && c != 'o')
    || (48 <= c as u32 && c as u32 <= 57 && c != '1')
}

/// The base58 alphabet: letters and digits, excluding the ambiguous
/// `0`, `I`, `O` and `l`.
pub open spec fn is_base58_char(c: char) -> bool {
    (97 <= c as u32 && c as u32 <= 122 && c != 'l')
    || (65 <= c as u32 && c as u32 <= 90 && c != 'I' && c != 'O')
    || (49 <= c as u32 && c as u32 <= 57)  // 1-9
}

/// Length of the longest run of bech32 characters starting at `i`.
pub open spec fn bech32_run(s: Seq<char>, i: int) -> int
    decreases s.len() - i,
{
    if i < 0 || i >= s.len() || !is_bech32_char(s[i]) {
        0
    } else {
        1 + bech32_run(s, i + 1)
    }
}

/// Length of the longest run of base58 characters starting at `i`.
pub open spec fn base58_run(s: Seq<char>, i: int) -> int
    decreases s.len() - i,
{
    if i < 0 || i >= s.len() || !is_base58_char(s[i]) {
        0
    } else {
        1 + base58_run(s, i + 1)
    }
}

/// A word boundary to the left of position `i`.
pub open spec fn boundary_before(s: Seq<char>, i: int) -> bool {
    i <= 0 || !is_word_char(s[i - 1])
}

/// A word boundary to the right of position `i` (exclusive end).
pub open spec fn boundary_after(s: Seq<char>, i: int) -> bool {
    i >= s.len() || !is_word_char(s[i])
}

/// Length of the segwit-address match at `i`: `bc1` followed by 8 to 87
/// bech32 characters, ending at a word boundary. Since every bech32
/// character is a word character, the only candidate is the whole run.
pub open spec fn bc1_len_at(s: Seq<char>, i: int) -> Option<int> {
    if 0 <= i && i + 3 <= s.len() && s[i] == 'b' && s[i + 1] == 'c' && s[i + 2] == '1' {
        let r = bech32_run(s, i + 3);
        if 8 <= r <= 87 && boundary_after(s, i + 3 + r) {
            Some(3 + r)
        } else {
            None
        }
    } else {
        None
    }
}

/// Length of the constrained bech32-variant match at `i`: `bc0` followed
/// by exactly 39 or exactly 59 bech32 characters, ending at a word
/// boundary.
pub open spec fn bc0_len_at(s: Seq<char>, i: int) -> Option<int> {
    if 0 <= i && i + 3 <= s.len() && s[i] == 'b' && s[i + 1] == 'c' && s[i + 2] == '0' {
        let r = bech32_run(s, i + 3);
        if (r == 39 || r == 59) && boundary_after(s, i + 3 + r) {
            Some(3 + r)
        } else {
            None
        }
    } else {
        None
    }
}

/// Length of the legacy or script-hash match at `i`: `1` or `3` followed
/// by 25 to 35 base58 characters, ending at a word boundary.
pub open spec fn base58_len_at(s: Seq<char>, i: int) -> Option<int> {
    if 0 <= i && i < s.len() && (s[i] == '1' || s[i] == '3') {
        let r = base58_run(s, i + 1);
        if 25 <= r <= 35 && boundary_after(s, i + 1 + r) {
            Some(1 + r)
        } else {
            None
        }
    } else {
        None
    }
}

/// Length of the address match starting exactly at `i`, if any: one of
/// the three address shapes, between word boundaries. The shapes are
/// told apart by their first characters, so at most one applies.
pub open spec fn match_len_at(s: Seq<char>, i: int) -> Option<int> {
    if !boundary_before(s, i) {
        None
    } else if bc1_len_at(s, i) is Some {
        bc1_len_at(s, i)
    } else if bc0_len_at(s, i) is Some {
        bc0_len_at(s, i)
    } else {
        base58_len_at(s, i)
    }
}

/// The leftmost address match at or after position `i`.
pub open spec fn first_match_from(s: Seq<char>, i: int) -> Option<Seq<char>>
    decreases s.len() - i,
{
    if i < 0 || i >= s.len() {
        None
    } else {
        match match_len_at(s, i) {
            Some(l) => Some(s.subrange(i, i + l)),
            None => first_match_from(s, i + 1),
        }
    }
}

/// What `extract_btc_address` returns: the leftmost address match in the
/// text, if any.
pub open spec fn spec_extract(s: Seq<char>) -> Option<Seq<char>> {
    first_match_from(s, 0)
}

fn word_char(c: char) -> (r: bool)
    ensures
        r == is_word_char(c),
{
    let u = c as u32;
    (97 <= u && u <= 122) || (65 <= u && u <= 90) || (48 <= u && u <= 57) || c == '_'
}

fn bech32_char(c: char) -> (r: bool)
    ensures
        r == is_bech32_char(c),
{
    let u = c as u32;
    (97 <= u && u <= 122 && c != 'b' && c != 'i' && c != 'o') || (48 <= u && u <= 57 && c != '1')
}

fn base58_char(c: char) -> (r: bool)
    ensures
        r == is_base58_char(c),
{
    let u = c as u32;
    (97 <= u && u <= 122 && c != 'l') || (65 <= u && u <= 90 && c != 'I' && c != 'O') || (49 <= u
        && u <= 57)
}

fn bech32_run_from(chars: &Vec<char>, from: usize) -> (r: usize)
    requires
        from <= chars.len(),
    ensures
        r as int == bech32_run(chars@, from as int),
        from + r <= chars.len(),
{
    let mut j = from;
    while j < chars.len() && bech32_char(chars[j])
        invariant
            from <= j <= chars.len(),
            bech32_run(chars@, from as int) == j - from + bech32_run(chars@, j as int),
        decreases chars.len() - j,
    {
        j = j + 1;
    }
    j - from
}

fn base58_run_from(chars: &Vec<char>, from: usize) -> (r: usize)
    requires
        from <= chars.len(),
    ensures
        r as int == base58_run(chars@, from as int),
        from + r <= chars.len(),
{
    let mut j = from;
    while j < chars.len() && base58_char(chars[j])
        invariant
            from <= j <= chars.len(),
            base58_run(chars@, from as int) == j - from + base58_run(chars@, j as int),
        decreases chars.len() - j,
    {
        j = j + 1;
    }
    j - from
}

fn match_at(chars: &Vec<char>, i: usize) -> (r: Option<usize>)
    requires
        i < chars.len(),
    ensures
        match r {
            Some(l) => match_len_at(chars@, i as int) == Some(l as int) && i + l <= chars.len(),
            None => match_len_at(chars@, i as int) is None,
        },
{
    if i > 0 && word_char(chars[i - 1]) {
        return None;
    }
    let c = chars[i];
    if c == 'b' {
        if chars.len() - i >= 3 && chars[i + 1] == 'c' && (chars[i + 2] == '1' || chars[i + 2]
            == '0') {
            let r = bech32_run_from(chars, i + 3);
            let end = i + 3 + r;
            let bounded = end == chars.len() || !word_char(chars[end]);
            if chars[i + 2] == '1' {
                if 8 <= r && r <= 87 && bounded {
                    return Some(3 + r);
                }
            } else {
                if (r == 39 || r == 59) && bounded {
                    return Some(3 + r);
                }
            }
        }
        None
    } else if c == '1' || c == '3' {
        let r = base58_run_from(chars, i + 1);
        let end = i + 1 + r;
        let bounded = end == chars.len() || !word_char(chars[end]);
        if 25 <= r && r <= 35 && bounded {
            Some(1 + r)
        } else {
            None
        }
    } else {
        None
    }
}

fn subvec(chars: &Vec<char>, start: usize, len: usize) -> (r: Vec<char>)
    requires
        start + len <= chars.len(),
    ensures
        r@ == chars@.subrange(start as int, start as int + len as int),
{
    let mut out: Vec<char> = Vec::new();
    let mut k: usize = 0;
    while k < len
        invariant
            k <= len,
            start + len <= chars.len(),
            out@ == chars@.subrange(start as int, start as int + k as int),
        decreases len - k,
    {
        out.push(chars[start + k]);
        k = k + 1;
        assert(out@ =~= chars@.subrange(start as int, start as int + k as int));
    }
    out
}

/// Scans free-form text and returns the first (leftmost) bitcoin address
/// in it, if any: a segwit `bc1` address, a constrained `bc0` variant, or
/// a legacy/script-hash base58 address, standing between word boundaries.
pub fn extract_btc_address(message: &str) -> (r: Option<String>)
    ensures
        match r {
            Some(a) => spec_extract(message@) == Some(a@),
            None => spec_extract(message@) is None,
        },
{
    let chars = str_chars(message);
    let mut i: usize = 0;
    while i < chars.len()
        invariant
            chars@ == message@,
            i <= chars.len(),
            first_match_from(chars@, 0) == first_match_from(chars@, i as int),
        decreases chars.len() - i,
    {
        match match_at(&chars, i) {
            Some(l) => {
                let sub = subvec(&chars, i, l);
                return Some(chars_to_string(&sub));
            },
            None => {
                i = i + 1;
            },
        }
    }
    None
}

/// A well-formed segwit address: `bc1` and 8 to 87 bech32 characters.
pub open spec fn is_bc1_address(a: Seq<char>) -> bool {
    &&& 11 <= a.len() <= 90
    &&& a[0] == 'b'
    &&& a[1] == 'c'
    &&& a[2] == '1'
    &&& forall|k: int| 3 <= k < a.len() ==> is_bech32_char(a[k])
}

/// A well-formed constrained bech32 variant: `bc0` and exactly 39 or
/// exactly 59 bech32 characters.
pub open spec fn is_bc0_address(a: Seq<char>) -> bool {
    &&& (a.len() == 42 || a.len() == 62)
    &&& a[0] == 'b'
    &&& a[1] == 'c'
    &&& a[2] == '0'
    &&& forall|k: int| 3 <= k < a.len() ==> is_bech32_char(a[k])
}

/// A well-formed legacy or script-hash address: `1` or `3` and 25 to 35
/// base58 characters.
pub open spec fn is_base58_address(a: Seq<char>) -> bool {
    &&& 26 <= a.len() <= 36
    &&& (a[0] == '1' || a[0] == '3')
    &&& forall|k: int| 1 <= k < a.len() ==> is_base58_char(a[k])
}

/// A well-formed bitcoin address of any of the three recognized shapes.
pub open spec fn is_address(a: Seq<char>) -> bool {
    is_bc1_address(a) || is_bc0_address(a) || is_base58_address(a)
}

proof fn lemma_bech32_run_exact(s: Seq<char>, i: int, j: int)
    requires
        0 <= i <= j <= s.len(),
        forall|k: int| i <= k < j ==> is_bech32_char(s[k]),
        j == s.len() || !is_bech32_char(s[j]),
    ensures
        bech32_run(s, i) == j - i,
    decreases j - i,
{
    if i < j {
        lemma_bech32_run_exact(s, i + 1, j);
    }
}

proof fn lemma_base58_run_exact(s: Seq<char>, i: int, j: int)
    requires
        0 <= i <= j <= s.len(),
        forall|k: int| i <= k < j ==> is_base58_char(s[k]),
        j == s.len() || !is_base58_char(s[j]),
    ensures
        base58_run(s, i) == j - i,
    decreases j - i,
{
    if i < j {
        lemma_base58_run_exact(s, i + 1, j);
    }
}

proof fn lemma_first_match_skip(s: Seq<char>, p: int)
    requires
        0 <= p <= s.len(),
        forall|j: int| 0 <= j < p ==> match_len_at(s, j) is None,
    ensures
        first_match_from(s, 0) == first_match_from(s, p),
    decreases p,
{
    if p > 0 {
        lemma_first_match_skip(s, p - 1);
    }
}

/// An address embedded at one position of the text, with word boundaries
/// on both sides, matches there with exactly its own length.
pub proof fn lemma_address_matches_at(s: Seq<char>, p: int, a: Seq<char>)
    requires
        0 <= p,
        p + a.len() <= s.len(),
        s.subrange(p, p + a.len()) == a,
        is_address(a),
        boundary_before(s, p),
        boundary_after(s, p + a.len()),
    ensures
        match_len_at(s, p) == Some(a.len() as int),
{
    let e = p + a.len();
    assert(forall|k: int| 0 <= k < a.len() ==> s[p + k] == a[k]) by {
        assert(forall|k: int| 0 <= k < a.len() ==> a[k] == s.subrange(p, e)[k]);
    }
    if is_bc1_address(a) || is_bc0_address(a) {
        assert(forall|k: int| p + 3 <= k < e ==> is_bech32_char(s[k])) by {
            assert(forall|k: int| p + 3 <= k < e ==> s[k] == a[k - p]);
        }
        assert(e == s.len() || !is_bech32_char(s[e]));
        lemma_bech32_run_exact(s, p + 3, e);
        assert(s[p] == a[0] && s[p + 1] == a[1] && s[p + 2] == a[2]);
    } else {
        assert(forall|k: int| p + 1 <= k < e ==> is_base58_char(s[k])) by {
            assert(forall|k: int| p + 1 <= k < e ==> s[k] == a[k - p]);
        }
        assert(e == s.len() || !is_base58_char(s[e]));
        lemma_base58_run_exact(s, p + 1, e);
        assert(s[p] == a[0]);
    }
}

/// If the text holds one well-formed address, embedded anywhere with word
/// boundaries around it, and nothing address-shaped matches earlier, the
/// scan returns exactly that address.
pub proof fn lemma_extract_finds_address(s: Seq<char>, p: int, a: Seq<char>)
    requires
        0 <= p,
        p + a.len() <= s.len(),
        s.subrange(p, p + a.len()) == a,
        is_address(a),
        boundary_before(s, p),
        boundary_after(s, p + a.len()),
        forall|j: int| 0 <= j < p ==> match_len_at(s, j) is None,
    ensures
        spec_extract(s) == Some(a),
{
    lemma_address_matches_at(s, p, a);
    lemma_first_match_skip(s, p);
}

proof fn lemma_bech32_run_chars(s: Seq<char>, i: int)
    requires
        0 <= i <= s.len(),
    ensures
        i + bech32_run(s, i) <= s.len(),
        forall|k: int| i <= k < i + bech32_run(s, i) ==> is_bech32_char(s[k]),
    decreases s.len() - i,
{
    if i < s.len() && is_bech32_char(s[i]) {
        lemma_bech32_run_chars(s, i + 1);
    }
}

proof fn lemma_base58_run_chars(s: Seq<char>, i: int)
    requires
        0 <= i <= s.len(),
    ensures
        i + base58_run(s, i) <= s.len(),
        forall|k: int| i <= k < i + base58_run(s, i) ==> is_base58_char(s[k]),
    decreases s.len() - i,
{
    if i < s.len() && is_base58_char(s[i]) {
        lemma_base58_run_chars(s, i + 1);
    }
}

/// A match is never more than an address shape: what matches at `i` with
/// length `l` is a well-formed address occupying exactly those positions.
pub proof fn lemma_match_is_address(s: Seq<char>, i: int, l: int)
    requires
        match_len_at(s, i) == Some(l),
    ensures
        0 <= i,
        i + l <= s.len(),
        is_address(s.subrange(i, i + l)),
{
    let a = s.subrange(i, i + l);
    if bc1_len_at(s, i) is Some {
        lemma_bech32_run_chars(s, i + 3);
        assert(forall|k: int| 3 <= k < a.len() ==> a[k] == s[i + k] && is_bech32_char(s[i + k]));
        assert(is_bc1_address(a));
    } else if bc0_len_at(s, i) is Some {
        lemma_bech32_run_chars(s, i + 3);
        assert(forall|k: int| 3 <= k < a.len() ==> a[k] == s[i + k] && is_bech32_char(s[i + k]));
        assert(is_bc0_address(a));
    } else {
        lemma_base58_run_chars(s, i + 1);
        assert(forall|k: int| 1 <= k < a.len() ==> a[k] == s[i + k] && is_base58_char(s[i + k]));
        assert(is_base58_address(a));
    }
}

/// Whatever the scan returns is itself a well-formed address: the three
/// shapes are the only things it recognizes.
pub proof fn lemma_extract_sound(s: Seq<char>, a: Seq<char>)
    requires
        spec_extract(s) == Some(a),
    ensures
        is_address(a),
{
    lemma_sound_from(s, 0, a);
}

proof fn lemma_sound_from(s: Seq<char>, i: int, a: Seq<char>)
    requires
        first_match_from(s, i) == Some(a),
    ensures
        is_address(a),
    decreases s.len() - i,
{
    match match_len_at(s, i) {
        Some(l) => {
            lemma_match_is_address(s, i, l);
        },
        None => {
            lemma_sound_from(s, i + 1, a);
        },
    }
}

/// If nothing in the text matches an address shape at any position, the
/// scan comes back empty.
pub proof fn lemma_extract_none(s: Seq<char>)
    requires
        forall|i: int| 0 <= i < s.len() ==> match_len_at(s, i) is None,
    ensures
        spec_extract(s) is None,
{
    lemma_no_match_from(s, 0);
}

proof fn lemma_no_match_from(s: Seq<char>, i: int)
    requires
        forall|j: int| i <= j < s.len() ==> match_len_at(s, j) is None,
    ensures
        first_match_from(s, i) is None,
    decreases s.len() - i,
{
    if 0 <= i < s.len() {
        lemma_no_match_from(s, i + 1);
    }
}

} // verus!
