//! Text handling on sequences of characters: searching, splitting,
//! comparing without regard to ASCII case, and writing numbers in decimal.

use vstd::prelude::*;
use vstd::string::*;
use vstd::utf8::*;

verus! {

/// `String::push` of std: the character is added at the end and nothing else
/// changes.
#[verifier::external_body]
pub(crate) fn push_char(s: &mut String, c: char)
    ensures
        final(s)@ == old(s)@.push(c),
{
    s.push(c)
}

/// The characters of `s`, one element each.
pub fn to_chars(s: &str) -> (chars: Vec<char>)
    ensures
        chars@ == s@,
{
    let mut chars: Vec<char> = Vec::new();
    for c in it: s.chars()
        invariant
            it.seq() == s@,
            chars@ == s@.take(it.index() as int),
    {
        chars.push(c);
        assert(s@.take(it.index() as int).push(c) =~= s@.take(it.index() as int + 1));
    }
    assert(s@.take(s@.len() as int) =~= s@);
    chars
}

/// The string made of `chars[lo..hi]`.
pub fn string_from(chars: &Vec<char>, lo: usize, hi: usize) -> (s: String)
    requires
        lo <= hi <= chars.len(),
    ensures
        s@ == chars@.subrange(lo as int, hi as int),
{
    let mut s = String::new();
    let mut i: usize = lo;
    while i < hi
        invariant
            lo <= i <= hi <= chars.len(),
            s@ == chars@.subrange(lo as int, i as int),
        decreases hi - i,
    {
        push_char(&mut s, chars[i]);
        assert(chars@.subrange(lo as int, i as int).push(chars@[i as int]) =~= chars@.subrange(
            lo as int,
            i as int + 1,
        ));
        i += 1;
    }
    s
}

/// Two strings hold the same characters exactly when their UTF-8 encodings
/// are the same bytes.
pub proof fn lemma_encoding_is_injective(a: Seq<char>, b: Seq<char>)
    requires
        encode_utf8(a) == encode_utf8(b),
    ensures
        a == b,
{
    encode_utf8_decode_utf8(a);
    encode_utf8_decode_utf8(b);
}

/// Whether `a` and `b` are the same text.
pub fn str_eq(a: &str, b: &str) -> (same: bool)
    ensures
        same == (a@ == b@),
{
    let x = a.as_bytes();
    let y = b.as_bytes();
    if x.len() != y.len() {
        return false;
    }
    let mut i: usize = 0;
    while i < x.len()
        invariant
            x@ == encode_utf8(a@),
            y@ == encode_utf8(b@),
            x.len() == y.len(),
            i <= x.len(),
            x@.take(i as int) == y@.take(i as int),
        decreases x.len() - i,
    {
        if x[i] != y[i] {
            return false;
        }
        assert(x@.take(i as int + 1) =~= x@.take(i as int).push(x@[i as int]));
        assert(y@.take(i as int + 1) =~= y@.take(i as int).push(y@[i as int]));
        i += 1;
    }
    proof {
        assert(x@ =~= x@.take(x.len() as int));
        assert(y@ =~= y@.take(y.len() as int));
        lemma_encoding_is_injective(a@, b@);
    }
    true
}

/// Whether `pat` stands in `text` at index `i`.
pub open spec fn occurs_at(text: Seq<char>, pat: Seq<char>, i: int) -> bool {
    0 <= i && i + pat.len() <= text.len() && text.subrange(i, i + pat.len()) == pat
}

/// The least index at or after `from` where `pat` stands in `text`, if there
/// is one.
pub open spec fn find_from(text: Seq<char>, pat: Seq<char>, from: int) -> Option<int>
    decreases text.len() + 1 - from,
{
    if from < 0 || from + pat.len() > text.len() {
        None
    } else if occurs_at(text, pat, from) {
        Some(from)
    } else {
        find_from(text, pat, from + 1)
    }
}

/// Whether `pat` stands somewhere in `text`.
pub open spec fn contains(text: Seq<char>, pat: Seq<char>) -> bool {
    exists|i: int| occurs_at(text, pat, i)
}

/// `find_from` gives the first occurrence: the pattern stands at the index
/// it returns and at no earlier index from `from` on; where it returns
/// nothing, the pattern stands nowhere from `from` on.
pub proof fn lemma_find_from_is_first(text: Seq<char>, pat: Seq<char>, from: int)
    requires
        0 <= from,
    ensures
        match find_from(text, pat, from) {
            Some(i) => from <= i && occurs_at(text, pat, i) && forall|j: int|
                from <= j < i ==> !occurs_at(text, pat, j),
            None => forall|j: int| from <= j ==> !occurs_at(text, pat, j),
        },
    decreases text.len() + 1 - from,
{
    if from + pat.len() <= text.len() && !occurs_at(text, pat, from) {
        lemma_find_from_is_first(text, pat, from + 1);
    }
}

/// Whether `pat` stands in `text` at index `i`.
pub fn occurs_at_index(text: &Vec<char>, pat: &Vec<char>, i: usize) -> (found: bool)
    ensures
        found == occurs_at(text@, pat@, i as int),
{
    if pat.len() > text.len() || i > text.len() - pat.len() {
        return false;
    }
    let mut k: usize = 0;
    while k < pat.len()
        invariant
            i + pat.len() <= text.len(),
            k <= pat.len(),
            text@.subrange(i as int, i + k) == pat@.take(k as int),
        decreases pat.len() - k,
    {
        if text[i + k] != pat[k] {
            assert(text@.subrange(i as int, i + pat.len())[k as int] != pat@[k as int]);
            return false;
        }
        assert(text@.subrange(i as int, i + k + 1) =~= text@.subrange(i as int, i + k).push(
            text@[i + k],
        ));
        assert(pat@.take(k as int + 1) =~= pat@.take(k as int).push(pat@[k as int]));
        k += 1;
    }
    assert(pat@.take(pat.len() as int) =~= pat@);
    true
}

/// The first index at or after `from` where `pat` stands in `text`.
pub fn find(text: &Vec<char>, pat: &Vec<char>, from: usize) -> (found: Option<usize>)
    ensures
        match found {
            Some(i) => find_from(text@, pat@, from as int) == Some(i as int),
            None => find_from(text@, pat@, from as int) is None,
        },
{
    if pat.len() > text.len() {
        return None;
    }
    let last: usize = text.len() - pat.len();
    let mut i: usize = from;
    while i <= last
        invariant
            last == text.len() - pat.len(),
            from <= i,
            find_from(text@, pat@, from as int) == find_from(text@, pat@, i as int),
        decreases last - i,
    {
        if occurs_at_index(text, pat, i) {
            return Some(i);
        }
        if i == last {
            assert(find_from(text@, pat@, i + 1) is None);
            return None;
        }
        i += 1;
    }
    None
}

/// Whether `pat` stands somewhere in `text`.
pub fn has(text: &Vec<char>, pat: &Vec<char>) -> (found: bool)
    ensures
        found == contains(text@, pat@),
{
    proof {
        lemma_find_from_is_first(text@, pat@, 0);
    }
    find(text, pat, 0).is_some()
}

/// The pieces of `text` between occurrences of `sep`, from index `start` on:
/// the piece that ends where `sep` first stands, then the pieces of what
/// follows that occurrence. Where `sep` does not occur, the rest of the text
/// is the one piece.
pub open spec fn split_from(text: Seq<char>, sep: Seq<char>, start: int) -> Seq<Seq<char>>
    decreases text.len() - start,
{
    match find_from(text, sep, start) {
        Some(i) => if sep.len() > 0 && start <= i && i + sep.len() <= text.len() {
            seq![text.subrange(start, i)] + split_from(text, sep, i + sep.len())
        } else {
            seq![text.subrange(start, text.len() as int)]
        },
        None => seq![text.subrange(start, text.len() as int)],
    }
}

/// The pieces of `text` between occurrences of `sep`. There is always at
/// least one piece; a separator at the very end leaves an empty last piece.
pub open spec fn split(text: Seq<char>, sep: Seq<char>) -> Seq<Seq<char>> {
    split_from(text, sep, 0)
}

/// The view of a vector of character vectors.
pub open spec fn pieces_view(pieces: Seq<Vec<char>>) -> Seq<Seq<char>> {
    pieces.map_values(|p: Vec<char>| p@)
}

/// Copies `text[lo..hi]`.
pub fn slice_of(text: &Vec<char>, lo: usize, hi: usize) -> (piece: Vec<char>)
    requires
        lo <= hi <= text.len(),
    ensures
        piece@ == text@.subrange(lo as int, hi as int),
{
    let mut piece: Vec<char> = Vec::new();
    let mut i: usize = lo;
    while i < hi
        invariant
            lo <= i <= hi <= text.len(),
            piece@ == text@.subrange(lo as int, i as int),
        decreases hi - i,
    {
        piece.push(text[i]);
        assert(text@.subrange(lo as int, i as int).push(text@[i as int]) =~= text@.subrange(
            lo as int,
            i as int + 1,
        ));
        i += 1;
    }
    piece
}

/// Splits `text` at each occurrence of `sep`.
pub fn split_text(text: &Vec<char>, sep: &Vec<char>) -> (pieces: Vec<Vec<char>>)
    requires
        sep.len() > 0,
    ensures
        pieces_view(pieces@) == split(text@, sep@),
        pieces.len() >= 1,
{
    let mut pieces: Vec<Vec<char>> = Vec::new();
    let mut start: usize = 0;
    loop
        invariant
            sep.len() > 0,
            start <= text.len(),
            split(text@, sep@) == pieces_view(pieces@) + split_from(text@, sep@, start as int),
        decreases text.len() - start,
    {
        match find(text, sep, start) {
            Some(i) => {
                proof {
                    lemma_find_from_is_first(text@, sep@, start as int);
                }
                let piece = slice_of(text, start, i);
                assert(pieces_view(pieces@.push(piece)) =~= pieces_view(pieces@).push(piece@));
                assert(pieces_view(pieces@) + (seq![piece@] + split_from(
                    text@,
                    sep@,
                    i + sep.len(),
                )) =~= pieces_view(pieces@).push(piece@) + split_from(text@, sep@, i + sep.len()));
                pieces.push(piece);
                start = i + sep.len();
            },
            None => {
                let piece = slice_of(text, start, text.len());
                assert(pieces_view(pieces@.push(piece)) =~= pieces_view(pieces@).push(piece@));
                pieces.push(piece);
                return pieces;
            },
        }
    }
}

/// The lower-case form of an ASCII letter; any other character is itself.
pub open spec fn lower(c: char) -> char {
    if 'A' <= c && c <= 'Z' {
        ((c as u32) + 32) as char
    } else {
        c
    }
}

/// Whether `a` and `b` are the same text once ASCII letters are put in
/// lower case.
pub open spec fn eq_ignore_case(a: Seq<char>, b: Seq<char>) -> bool {
    a.len() == b.len() && forall|i: int| 0 <= i < a.len() ==> lower(a[i]) == lower(b[i])
}

/// Whether `text` begins with `prefix`, ASCII letters compared without
/// regard to case.
pub open spec fn starts_with_ignore_case(text: Seq<char>, prefix: Seq<char>) -> bool {
    prefix.len() <= text.len() && eq_ignore_case(text.subrange(0, prefix.len() as int), prefix)
}

/// The code of `lower(c)`.
pub fn lower_code(c: char) -> (code: u32)
    ensures
        code == lower(c) as u32,
{
    let code: u32 = c as u32;
    if 'A' <= c && c <= 'Z' {
        code + 32
    } else {
        code
    }
}

/// Whether `text` begins with `prefix`, ASCII letters compared without
/// regard to case.
pub fn has_prefix_ignore_case(text: &Vec<char>, prefix: &Vec<char>) -> (found: bool)
    ensures
        found == starts_with_ignore_case(text@, prefix@),
{
    if prefix.len() > text.len() {
        return false;
    }
    let ghost head = text@.subrange(0, prefix.len() as int);
    let mut i: usize = 0;
    while i < prefix.len()
        invariant
            prefix.len() <= text.len(),
            i <= prefix.len(),
            head == text@.subrange(0, prefix.len() as int),
            forall|k: int| 0 <= k < i ==> lower(head[k]) == lower(prefix@[k]),
        decreases prefix.len() - i,
    {
        if lower_code(text[i]) != lower_code(prefix[i]) {
            assert(lower(head[i as int]) != lower(prefix@[i as int]));
            return false;
        }
        i += 1;
    }
    true
}

/// Whether `a` and `b` are the same text, ASCII letters compared without
/// regard to case.
pub fn same_ignore_case(a: &Vec<char>, b: &Vec<char>) -> (same: bool)
    ensures
        same == eq_ignore_case(a@, b@),
{
    if a.len() != b.len() {
        return false;
    }
    assert(a@.subrange(0, b.len() as int) =~= a@);
    has_prefix_ignore_case(a, b)
}

/// The character of a decimal digit.
pub open spec fn digit(d: int) -> char {
    if d == 0 {
        '0'
    } else if d == 1 {
        '1'
    } else if d == 2 {
        '2'
    } else if d == 3 {
        '3'
    } else if d == 4 {
        '4'
    } else if d == 5 {
        '5'
    } else if d == 6 {
        '6'
    } else if d == 7 {
        '7'
    } else if d == 8 {
        '8'
    } else {
        '9'
    }
}

/// `n` written in decimal, without sign or leading zeros.
pub open spec fn decimal(n: nat) -> Seq<char>
    decreases n,
{
    if n < 10 {
        seq![digit(n as int)]
    } else {
        decimal(n / 10).push(digit((n % 10) as int))
    }
}

/// The character of the decimal digit `d`.
pub fn digit_char(d: u64) -> (c: char)
    requires
        d < 10,
    ensures
        c == digit(d as int),
{
    if d == 0 {
        '0'
    } else if d == 1 {
        '1'
    } else if d == 2 {
        '2'
    } else if d == 3 {
        '3'
    } else if d == 4 {
        '4'
    } else if d == 5 {
        '5'
    } else if d == 6 {
        '6'
    } else if d == 7 {
        '7'
    } else if d == 8 {
        '8'
    } else {
        '9'
    }
}

/// Appends `n` in decimal to `s`.
pub fn push_decimal(s: &mut String, n: u64)
    ensures
        final(s)@ == old(s)@ + decimal(n as nat),
    decreases n,
{
    if n >= 10 {
        push_decimal(s, n / 10);
    }
    push_char(s, digit_char(n % 10));
    assert(s@ =~= old(s)@ + decimal(n as nat));
}

} // verus!
