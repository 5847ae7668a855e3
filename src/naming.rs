//! Identifier case conversion for generated code, and the code
//! generator's error type.

use vstd::prelude::*;

verus! {

/// Whether `c` has the Unicode Uppercase property.
pub uninterp spec fn uppercase_property(c: char) -> bool;

/// The Unicode upper-case mapping of `c` (one or more characters).
pub uninterp spec fn uppercase_mapping(c: char) -> Seq<char>;

/// `c` with an ASCII capital turned into its small letter.
pub open spec fn ascii_lower(c: char) -> char {
    if 'A' <= c && c <= 'Z' {
        ((c as u32) + 32) as char
    } else {
        c
    }
}

/// Relies on `char::is_uppercase`: whether `c` has the Uppercase property.
#[verifier::external_body]
fn is_uppercase(c: char) -> (r: bool)
    ensures
        r == uppercase_property(c),
{
    c.is_uppercase()
}

/// `c` with an ASCII capital turned into its small letter.
fn to_ascii_lower(c: char) -> (r: char)
    ensures
        r == ascii_lower(c),
{
    if 'A' <= c && c <= 'Z' {
        ((c as u8) + 32) as char
    } else {
        c
    }
}

/// Relies on `char::to_uppercase`: the upper-case mapping of `c`.
#[verifier::external_body]
fn to_upper(c: char) -> (r: Vec<char>)
    ensures
        r@ == uppercase_mapping(c),
{
    c.to_uppercase().collect()
}

/// Relies on `str::chars`: the characters of `s`, in order.
#[verifier::external_body]
fn chars_of(s: &str) -> (r: Vec<char>)
    ensures
        r@ == s@,
{
    s.chars().collect()
}

/// Relies on `String`'s `FromIterator<char>`: the string of these characters.
#[verifier::external_body]
fn string_of(cs: &Vec<char>) -> (r: String)
    ensures
        r@ == cs@,
{
    cs.iter().collect()
}

/// The snake_case form of the first `n` characters: each character with
/// `upper[i]` becomes its ASCII small letter, after an underscore unless it
/// comes first; the others stay.
pub open spec fn snake_upto(cs: Seq<char>, upper: Seq<bool>, n: int) -> Seq<char>
    decreases n,
{
    if n <= 0 {
        Seq::empty()
    } else {
        let c = cs[n - 1];
        snake_upto(cs, upper, n - 1) + if upper[n - 1] {
            if n - 1 > 0 {
                seq!['_', ascii_lower(c)]
            } else {
                seq![ascii_lower(c)]
            }
        } else {
            seq![c]
        }
    }
}

/// The snake_case form of `cs`, where `upper[i]` tells whether `cs[i]` is
/// upper case.
pub open spec fn snake_case(cs: Seq<char>, upper: Seq<bool>) -> Seq<char> {
    snake_upto(cs, upper, cs.len() as int)
}

/// The PascalCase form of the first `n` characters: underscores go, the
/// first character and each one after an underscore becomes `upper[i]`,
/// the others stay.
pub open spec fn pascal_upto(cs: Seq<char>, upper: Seq<Seq<char>>, n: int) -> Seq<char>
    decreases n,
{
    if n <= 0 {
        Seq::empty()
    } else {
        let i = n - 1;
        pascal_upto(cs, upper, n - 1) + if cs[i] == '_' {
            Seq::empty()
        } else if i == 0 || cs[i - 1] == '_' {
            upper[i]
        } else {
            seq![cs[i]]
        }
    }
}

/// The PascalCase form of `cs`, where `upper[i]` is the upper-case form of `cs[i]`.
pub open spec fn pascal_case(cs: Seq<char>, upper: Seq<Seq<char>>) -> Seq<char> {
    pascal_upto(cs, upper, cs.len() as int)
}

/// The snake_case form of `chars`, given which of them are upper case.
pub fn snake_case_of(chars: &Vec<char>, uppercase: &Vec<bool>) -> (r: Vec<char>)
    requires
        chars@.len() == uppercase@.len(),
    ensures
        r@ == snake_case(chars@, uppercase@),
{
    let mut result: Vec<char> = Vec::new();
    let mut i: usize = 0;
    while i < chars.len()
        invariant
            i <= chars@.len(),
            chars@.len() == uppercase@.len(),
            result@ == snake_upto(chars@, uppercase@, i as int),
        decreases chars@.len() - i,
    {
        let c = chars[i];
        if uppercase[i] {
            if i > 0 {
                result.push('_');
            }
            result.push(to_ascii_lower(c));
        } else {
            result.push(c);
        }
        i = i + 1;
        assert(result@ =~= snake_upto(chars@, uppercase@, i as int));
    }
    result
}

/// Converts a PascalCase name to snake_case: an underscore before each
/// upper-case character but the first, and that character made small.
pub fn to_snake_case(name: &str) -> (r: String)
    ensures
        r@ == snake_case(name@, name@.map_values(|c: char| uppercase_property(c))),
{
    let chars = chars_of(name);
    let mut upper: Vec<bool> = Vec::new();
    let mut i: usize = 0;
    while i < chars.len()
        invariant
            i <= chars@.len(),
            upper@ =~= chars@.subrange(0, i as int).map_values(|c: char| uppercase_property(c)),
        decreases chars@.len() - i,
    {
        upper.push(is_uppercase(chars[i]));
        i = i + 1;
    }
    assert(chars@.subrange(0, chars@.len() as int) =~= chars@);
    string_of(&snake_case_of(&chars, &upper))
}

/// The PascalCase form of `chars`, given the upper-case form of each.
pub fn pascal_case_of(chars: &Vec<char>, uppercase: &Vec<Vec<char>>) -> (r: Vec<char>)
    requires
        chars@.len() == uppercase@.len(),
    ensures
        r@ == pascal_case(chars@, uppercase@.map_values(|u: Vec<char>| u@)),
{
    let ghost ups = uppercase@.map_values(|u: Vec<char>| u@);
    let mut result: Vec<char> = Vec::new();
    let mut i: usize = 0;
    while i < chars.len()
        invariant
            i <= chars@.len(),
            chars@.len() == uppercase@.len(),
            ups == uppercase@.map_values(|u: Vec<char>| u@),
            result@ == pascal_upto(chars@, ups, i as int),
        decreases chars@.len() - i,
    {
        let c = chars[i];
        let ghost before = result@;
        if c == '_' {
        } else if i == 0 || chars[i - 1] == '_' {
            let up = &uppercase[i];
            let mut j: usize = 0;
            while j < up.len()
                invariant
                    j <= up@.len(),
                    result@ == before + up@.subrange(0, j as int),
                decreases up@.len() - j,
            {
                result.push(up[j]);
                j = j + 1;
                assert(result@ =~= before + up@.subrange(0, j as int));
            }
            assert(up@.subrange(0, up@.len() as int) =~= up@);
        } else {
            result.push(c);
        }
        i = i + 1;
        assert(result@ =~= pascal_upto(chars@, ups, i as int));
    }
    result
}

/// Converts a snake_case name to PascalCase: underscores go, and the first
/// character of each word is made upper case.
pub fn to_pascal_case(name: &str) -> (r: String)
    ensures
        r@ == pascal_case(name@, name@.map_values(|c: char| uppercase_mapping(c))),
{
    let chars = chars_of(name);
    let mut upper: Vec<Vec<char>> = Vec::new();
    let mut i: usize = 0;
    while i < chars.len()
        invariant
            i <= chars@.len(),
            upper@.len() == i,
            forall|j: int| 0 <= j < i ==> #[trigger] upper@[j]@ == uppercase_mapping(chars@[j]),
        decreases chars@.len() - i,
    {
        let u = to_upper(chars[i]);
        upper.push(u);
        i = i + 1;
    }
    assert(upper@.map_values(|u: Vec<char>| u@) =~= name@.map_values(|c: char| uppercase_mapping(c)));
    string_of(&pascal_case_of(&chars, &upper))
}

/// Errors of code generation.
#[derive(Debug)]
pub enum CodegenError {
    /// Reading or writing a file failed.
    IoError(String),
    /// Generated code did not parse.
    ParseError(String),
    /// Generated code could not be formatted.
    FormatError(String),
    /// The generator's settings are invalid.
    ConfigError(String),
    /// A template could not be filled.
    TemplateError(String),
}

} // verus!
