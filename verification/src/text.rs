//! Texts: their characters, whether two are the same, whether one stands in
//! another, and how numbers and lists are written.

use vstd::prelude::*;
use vstd::string::StringSliceAdditionalSpecFns;
use vstd::utf8::{decode_utf8, valid_utf8};

verus! {

/// Appends one character to `s`.
///
/// Stands for `String::push`: the string afterwards is the string before
/// followed by `c`.
#[verifier::external_body]
fn push_char(s: &mut String, c: char)
    ensures
        final(s)@ == old(s)@.push(c),
{
    s.push(c)
}

/// The characters of `s`, in order.
pub fn chars_of(s: &str) -> (out: Vec<char>)
    ensures
        out@ == s@,
{
    let mut out: Vec<char> = Vec::new();
    for c in it: s.chars()
        invariant
            out@ == it.seq().take(it.index()),
    {
        out.push(c);
    }
    out
}

/// The string made of `chars`, in order.
pub fn string_of(chars: &Vec<char>) -> (out: String)
    ensures
        out@ == chars@,
{
    let mut out = String::new();
    let mut i: usize = 0;
    while i < chars.len()
        invariant
            i <= chars.len(),
            out@ == chars@.take(i as int),
        decreases chars.len() - i,
    {
        push_char(&mut out, chars[i]);
        i += 1;
    }
    out
}

/// Whether `a` and `b` are the same text.
pub fn same_text(a: &str, b: &str) -> (r: bool)
    ensures
        r == (a@ == b@),
{
    let x = a.as_bytes();
    let y = b.as_bytes();
    if x.len() != y.len() {
        return false;
    }
    let mut i: usize = 0;
    while i < x.len()
        invariant
            i <= x.len(),
            x.len() == y.len(),
            x@ == vstd::utf8::encode_utf8(a@),
            y@ == vstd::utf8::encode_utf8(b@),
            forall|k: int| 0 <= k < i ==> x@[k] == y@[k],
        decreases x.len() - i,
    {
        if x[i] != y[i] {
            return false;
        }
        i += 1;
    }
    proof {
        assert(x@ =~= y@);
        vstd::utf8::encode_utf8_decode_utf8(a@);
        vstd::utf8::encode_utf8_decode_utf8(b@);
    }
    true
}

/// `needle` stands in `hay` at `i`.
pub open spec fn stands_at(hay: Seq<char>, needle: Seq<char>, i: int) -> bool {
    0 <= i && i + needle.len() <= hay.len() && hay.subrange(i, i + needle.len()) == needle
}

/// `needle` stands somewhere in `hay`, as `str::contains` decides it.
pub open spec fn contains_text(hay: Seq<char>, needle: Seq<char>) -> bool {
    exists|i: int| stands_at(hay, needle, i)
}

fn found_at(hay: &Vec<char>, needle: &Vec<char>, i: usize) -> (r: bool)
    requires
        i + needle.len() <= hay.len(),
    ensures
        r == stands_at(hay@, needle@, i as int),
{
    let mut j: usize = 0;
    while j < needle.len()
        invariant
            j <= needle.len(),
            i + needle.len() <= hay.len(),
            forall|k: int| 0 <= k < j ==> hay@[i + k] == needle@[k],
        decreases needle.len() - j,
    {
        if hay[i + j] != needle[j] {
            assert(hay@.subrange(i as int, i + needle.len())[j as int] != needle@[j as int]);
            return false;
        }
        j += 1;
    }
    assert(hay@.subrange(i as int, i + needle.len()) =~= needle@);
    true
}

/// Whether `needle` stands somewhere in `hay`.
pub fn contains_chars(hay: &Vec<char>, needle: &Vec<char>) -> (r: bool)
    ensures
        r == contains_text(hay@, needle@),
{
    if needle.len() > hay.len() {
        return false;
    }
    let last = hay.len() - needle.len();
    let mut i: usize = 0;
    while i < last
        invariant
            i <= last,
            last == hay.len() - needle.len(),
            forall|k: int| 0 <= k < i ==> !stands_at(hay@, needle@, k),
        decreases last - i,
    {
        if found_at(hay, needle, i) {
            return true;
        }
        i += 1;
    }
    found_at(hay, needle, last)
}

/// Whether no two of `texts` are the same.
pub fn distinct_texts(texts: &Vec<String>) -> (r: bool)
    ensures
        r == forall|i: int, j: int|
            0 <= i < texts.len() && 0 <= j < texts.len() && i != j ==> texts@[i]@ != texts@[j]@,
{
    let mut i: usize = 0;
    while i < texts.len()
        invariant
            i <= texts.len(),
            forall|a: int, b: int| 0 <= a < i && 0 <= b < a ==> texts@[a]@ != texts@[b]@,
        decreases texts.len() - i,
    {
        let mut j: usize = 0;
        while j < i
            invariant
                j <= i,
                i < texts.len(),
                forall|b: int| 0 <= b < j ==> texts@[i as int]@ != texts@[b]@,
            decreases i - j,
        {
            if same_text(texts[i].as_str(), texts[j].as_str()) {
                return false;
            }
            j += 1;
        }
        i += 1;
    }
    assert forall|a: int, b: int|
        0 <= a < texts.len() && 0 <= b < texts.len() && a != b implies texts@[a]@ != texts@[b]@ by {
        if b < a {
            assert(texts@[a]@ != texts@[b]@);
        } else {
            assert(texts@[b]@ != texts@[a]@);
        }
    }
    true
}

/// Reads `bytes` as UTF-8 with `String::from_utf8`: the text they encode,
/// or the message of the error where they encode none.
#[verifier::external_body]
pub(crate) fn utf8_text(bytes: &[u8]) -> (r: Result<String, String>)
    ensures
        r is Ok <==> valid_utf8(bytes@),
        r matches Ok(text) ==> text@ == decode_utf8(bytes@),
{
    String::from_utf8(bytes.to_vec()).map_err(|e| e.to_string())
}

/// What `{:?}` writes for a list of strings.
pub uninterp spec fn debug_form(texts: Seq<Seq<char>>) -> Seq<char>;

/// Writes `texts` as `{:?}` does.
#[verifier::external_body]
pub(crate) fn debug_list(texts: &Vec<String>) -> (out: String)
    ensures
        out@ == debug_form(texts.deep_view()),
{
    format!("{:?}", texts)
}

/// The decimal digit that writes `d`.
pub open spec fn digit(d: nat) -> char
    recommends
        d < 10,
{
    ((48 + d) as u8) as char
}

/// `n` written in decimal.
pub open spec fn decimal(n: nat) -> Seq<char>
    decreases n,
{
    if n < 10 {
        seq![digit(n)]
    } else {
        decimal(n / 10).push(digit(n % 10))
    }
}

/// `n` written in decimal.
pub fn decimal_text(n: u64) -> (out: String)
    ensures
        out@ == decimal(n as nat),
{
    let mut reversed: Vec<char> = Vec::new();
    let mut rest: u64 = n;
    while rest >= 10
        invariant
            decimal(n as nat) == decimal(rest as nat) + reversed@.reverse(),
        decreases rest,
    {
        let d: u8 = (rest % 10) as u8;
        let ghost before = reversed@;
        reversed.push((48 + d) as char);
        proof {
            assert(reversed@.reverse() =~= seq![digit((rest % 10) as nat)] + before.reverse());
            assert(decimal(rest as nat) == decimal((rest / 10) as nat).push(
                digit((rest % 10) as nat),
            ));
            assert(decimal((rest / 10) as nat).push(digit((rest % 10) as nat)) + before.reverse()
                =~= decimal((rest / 10) as nat) + reversed@.reverse());
        }
        rest = rest / 10;
    }
    let d: u8 = rest as u8;
    let mut out: Vec<char> = Vec::new();
    out.push((48 + d) as char);
    let mut i: usize = reversed.len();
    assert(reversed@.reverse().take(0) =~= Seq::<char>::empty());
    while i > 0
        invariant
            i <= reversed.len(),
            out@ == decimal(rest as nat) + reversed@.reverse().take(reversed.len() - i),
        decreases i,
    {
        i -= 1;
        let ghost before = out@;
        out.push(reversed[i]);
        proof {
            let r = reversed@.reverse();
            assert(r.take(reversed.len() - i) =~= r.take(reversed.len() - i - 1).push(
                reversed@[i as int],
            ));
            assert(before.push(reversed@[i as int]) =~= decimal(rest as nat) + r.take(
                reversed.len() - i,
            ));
        }
    }
    assert(reversed@.reverse().take(reversed.len() as int) =~= reversed@.reverse());
    string_of(&out)
}

} // verus!
