//! Crate names: which are allowed, when two spell the same crate, and where
//! a crate's file lies in the index.

use crate::error::Error;
use crate::text::{chars_of, string_of};
use vstd::prelude::*;

verus! {

/// `c` is one of `A` to `Z`.
pub open spec fn is_upper(c: char) -> bool {
    'A' <= c <= 'Z'
}

/// `c` is an ASCII letter.
pub open spec fn is_letter(c: char) -> bool {
    'a' <= c <= 'z' || 'A' <= c <= 'Z'
}

/// `c` may stand in a crate name: an ASCII letter or digit, `-` or `_`.
pub open spec fn is_name_char(c: char) -> bool {
    is_letter(c) || '0' <= c <= '9' || c == '-' || c == '_'
}

/// `c` with `A` to `Z` turned into `a` to `z`; any other character is kept.
pub open spec fn lower_char(c: char) -> char {
    if is_upper(c) {
        ((c as u8) + 32) as char
    } else {
        c
    }
}

/// `name` in ASCII lower case.
pub open spec fn lower_name(name: Seq<char>) -> Seq<char> {
    name.map_values(|c: char| lower_char(c))
}

/// The character that stands for `c` in a normalized name: its ASCII lower
/// case, with `=` for both `_` and `-`.
pub open spec fn normal_char(c: char) -> char {
    if c == '_' || c == '-' {
        '='
    } else {
        lower_char(c)
    }
}

/// The normalized form of `name`. Two names with the same normalized form
/// spell the same crate.
pub open spec fn normal_name(name: Seq<char>) -> Seq<char> {
    name.map_values(|c: char| normal_char(c))
}

/// `name` with every `-` replaced by `_`.
pub open spec fn underscored(name: Seq<char>) -> Seq<char> {
    name.map_values(|c: char| if c == '-' { '_' } else { c })
}

/// `lower` is a device name that Windows reserves: `con`, `prn`, `aux`, `nul`
/// or `com1` to `com9`.
pub open spec fn is_reserved(lower: Seq<char>) -> bool {
    ||| lower == seq!['c', 'o', 'n']
    ||| lower == seq!['p', 'r', 'n']
    ||| lower == seq!['a', 'u', 'x']
    ||| lower == seq!['n', 'u', 'l']
    ||| (lower.len() == 4 && lower[0] == 'c' && lower[1] == 'o' && lower[2] == 'm' && '1' <= lower[3] <= '9')
}

/// The longest crate name allowed, in characters.
pub const MAX_NAME_LEN: usize = 65;

/// `name` is allowed as a crate name.
pub open spec fn valid_name(name: Seq<char>) -> bool {
    &&& 0 < name.len() <= MAX_NAME_LEN
    &&& is_letter(name[0])
    &&& forall|i: int| 0 <= i < name.len() ==> is_name_char(#[trigger] name[i])
    &&& !is_reserved(lower_name(name))
}

fn to_lower(c: char) -> (r: char)
    ensures
        r == lower_char(c),
{
    if 'A' <= c && c <= 'Z' {
        ((c as u8) + 32) as char
    } else {
        c
    }
}

/// The form of `name` under which its crate is stored and looked for.
pub fn normalized_crate_name(name: &str) -> (normalized: String)
    ensures
        normalized@ == normal_name(name@),
{
    let chars = chars_of(name);
    let mut out: Vec<char> = Vec::new();
    let mut i: usize = 0;
    while i < chars.len()
        invariant
            i <= chars.len(),
            chars@ == name@,
            out@ == normal_name(name@.take(i as int)),
        decreases chars.len() - i,
    {
        let c = chars[i];
        let n = if c == '_' || c == '-' {
            '='
        } else {
            to_lower(c)
        };
        out.push(n);
        assert(name@.take(i + 1) == name@.take(i as int).push(c));
        i += 1;
    }
    assert(name@.take(i as int) == name@);
    string_of(&out)
}

/// `name` in ASCII lower case.
pub fn lower_case(name: &str) -> (lower: String)
    ensures
        lower@ == lower_name(name@),
{
    string_of(&lowered(&chars_of(name)))
}

fn lowered(chars: &Vec<char>) -> (out: Vec<char>)
    ensures
        out@ == lower_name(chars@),
{
    let mut out: Vec<char> = Vec::new();
    let mut i: usize = 0;
    while i < chars.len()
        invariant
            i <= chars.len(),
            out@ == lower_name(chars@.take(i as int)),
        decreases chars.len() - i,
    {
        out.push(to_lower(chars[i]));
        assert(chars@.take(i + 1) == chars@.take(i as int).push(chars@[i as int]));
        i += 1;
    }
    assert(chars@.take(i as int) == chars@);
    out
}

fn is_three(lower: &Vec<char>, a: char, b: char, c: char) -> (r: bool)
    ensures
        r == (lower@ == seq![a, b, c]),
{
    let r = lower.len() == 3 && lower[0] == a && lower[1] == b && lower[2] == c;
    assert(r ==> lower@ =~= seq![a, b, c]);
    assert(seq![a, b, c].len() == 3 && seq![a, b, c][0] == a && seq![a, b, c][1] == b && seq![a, b, c][2] == c);
    r
}

fn reserved(lower: &Vec<char>) -> (r: bool)
    ensures
        r == is_reserved(lower@),
{
    is_three(lower, 'c', 'o', 'n') || is_three(lower, 'p', 'r', 'n') || is_three(lower, 'a', 'u', 'x')
        || is_three(lower, 'n', 'u', 'l') || (lower.len() == 4 && lower[0] == 'c' && lower[1] == 'o'
        && lower[2] == 'm' && '1' <= lower[3] && lower[3] <= '9')
}

fn name_char(c: char) -> (r: bool)
    ensures
        r == is_name_char(c),
{
    ('a' <= c && c <= 'z') || ('A' <= c && c <= 'Z') || ('0' <= c && c <= '9') || c == '-' || c == '_'
}

fn all_name_chars(chars: &Vec<char>) -> (r: bool)
    ensures
        r == forall|i: int| 0 <= i < chars@.len() ==> is_name_char(#[trigger] chars@[i]),
{
    let mut i: usize = 0;
    while i < chars.len()
        invariant
            i <= chars.len(),
            forall|j: int| 0 <= j < i ==> is_name_char(#[trigger] chars@[j]),
        decreases chars.len() - i,
    {
        if !name_char(chars[i]) {
            return false;
        }
        i += 1;
    }
    true
}

/// Accepts `name` when it is allowed as a crate name, and otherwise reports
/// it, in lower case, as invalid.
pub fn check_crate_name(name: &str) -> (r: Result<(), Error>)
    ensures
        r is Ok <==> valid_name(name@),
        r matches Err(e) ==> (e matches Error::InvalidCrateName(n) && n@ == lower_name(name@)),
{
    let chars = chars_of(name);
    let lower = lowered(&chars);
    let length_ok = 0 < chars.len() && chars.len() <= MAX_NAME_LEN;
    let first_ok = chars.len() > 0 && (('a' <= chars[0] && chars[0] <= 'z') || ('A' <= chars[0]
        && chars[0] <= 'Z'));
    if length_ok && first_ok && all_name_chars(&chars) && !reserved(&lower) {
        Ok(())
    } else {
        Err(Error::InvalidCrateName(string_of(&lower)))
    }
}

/// The directory of the index in which the file of the crate `name` lies,
/// relative to the root of the index.
pub open spec fn index_dir(name: Seq<char>) -> Seq<char> {
    let lower = lower_name(name);
    if name.len() == 1 {
        seq!['1']
    } else if name.len() == 2 {
        seq!['2']
    } else if name.len() == 3 {
        seq!['3', '/', lower[0]]
    } else {
        seq![lower[0], lower[1], '/', lower[2], lower[3]]
    }
}

/// The directory of the index in which the file of `crate_name` lies:
/// `1` and `2` for names of one and two characters, `3/a` for `abc`, and
/// `ab/cd` for `abcd` and longer names. An empty name has no directory.
pub fn package_dir_path(crate_name: &str) -> (r: Result<String, Error>)
    ensures
        crate_name@.len() == 0 <==> r is Err,
        r matches Err(e) ==> e matches Error::CrateNameNotDefined,
        r matches Ok(dir) ==> dir@ == index_dir(crate_name@),
{
    let lower = lowered(&chars_of(crate_name));
    let mut out: Vec<char> = Vec::new();
    if lower.len() == 0 {
        return Err(Error::CrateNameNotDefined);
    } else if lower.len() == 1 {
        out.push('1');
    } else if lower.len() == 2 {
        out.push('2');
    } else if lower.len() == 3 {
        out.push('3');
        out.push('/');
        out.push(lower[0]);
    } else {
        out.push(lower[0]);
        out.push(lower[1]);
        out.push('/');
        out.push(lower[2]);
        out.push(lower[3]);
    }
    assert(out@ =~= index_dir(crate_name@));
    Ok(string_of(&out))
}

/// Normalizing a name that is already normalized changes nothing, and a name
/// written with `-` normalizes as the same name written with `_`.
pub proof fn lemma_normalize_idempotent(name: Seq<char>)
    ensures
        normal_name(normal_name(name)) == normal_name(name),
        normal_name(underscored(name)) == normal_name(name),
{
    assert(normal_name(normal_name(name)) =~= normal_name(name));
    assert(normal_name(underscored(name)) =~= normal_name(name));
}

/// No name of more than 65 characters is allowed, none that starts with a
/// digit, none that holds a character outside ASCII, and none that is, in
/// whatever case, a reserved device name.
pub proof fn lemma_rejected_names(name: Seq<char>)
    ensures
        name.len() >= 66 ==> !valid_name(name),
        name.len() > 0 && '0' <= name[0] <= '9' ==> !valid_name(name),
        (exists|i: int| 0 <= i < name.len() && name[i] as u32 > 127) ==> !valid_name(name),
        is_reserved(lower_name(name)) ==> !valid_name(name),
{
    if exists|i: int| 0 <= i < name.len() && name[i] as u32 > 127 {
        let i = choose|i: int| 0 <= i < name.len() && name[i] as u32 > 127;
        assert(!is_name_char(name[i]));
    }
}

} // verus!
