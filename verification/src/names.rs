//! What the assistant behind the sessions is called, wherever its name stands:
//! on the frame of the sidebar, and in the names of the files it keeps at home.

use vstd::prelude::*;

use crate::text::{chars, concat3};

verus! {

/// A letter of the alphabet as a capital. Any other character stays as it is.
pub open spec fn capital(c: char) -> char {
    if 'a' <= c <= 'z' {
        (c as int - 32) as char
    } else {
        c
    }
}

/// A letter of the alphabet as a small one. Any other character stays as it
/// is.
pub open spec fn small(c: char) -> char {
    if 'A' <= c <= 'Z' {
        (c as int + 32) as char
    } else {
        c
    }
}

/// A name in capitals.
pub open spec fn in_capitals(name: Seq<char>) -> Seq<char> {
    Seq::new(name.len(), |i: int| capital(name[i]))
}

/// A name in small letters.
pub open spec fn in_small_letters(name: Seq<char>) -> Seq<char> {
    Seq::new(name.len(), |i: int| small(name[i]))
}

/// The configuration file of the fleet, as it is shown: it stands in the
/// assistant's own directory.
pub open spec fn config_path(assistant: Seq<char>) -> Seq<char> {
    "~/."@ + in_small_letters(assistant) + "/fleet.toml"@
}

/// The file in the home directory that caches the usage limits.
pub open spec fn cache_name(assistant: Seq<char>) -> Seq<char> {
    "."@ + in_small_letters(assistant) + ".json"@
}

/// A name in capitals.
pub fn banner(name: &str) -> (r: String)
    ensures
        r@ == in_capitals(name@),
{
    let all = chars(name);
    let mut out = String::new();
    let mut i: usize = 0;
    assert(out@ =~= in_capitals(name@).take(0));
    while i < all.len()
        invariant
            i <= all@.len(),
            all@ == name@,
            out@ == in_capitals(name@).take(i as int),
        decreases all@.len() - i,
    {
        let c: char = all[i];
        let code: u32 = c as u32;
        out.push(
            if 97 <= code && code <= 122 {
                (code as u8 - 32) as char
            } else {
                c
            },
        );
        assert(out@ =~= in_capitals(name@).take(i + 1));
        i += 1;
    }
    assert(out@ =~= in_capitals(name@));
    out
}

/// A name in small letters.
fn lower(name: &str) -> (r: String)
    ensures
        r@ == in_small_letters(name@),
{
    let all = chars(name);
    let mut out = String::new();
    let mut i: usize = 0;
    assert(out@ =~= in_small_letters(name@).take(0));
    while i < all.len()
        invariant
            i <= all@.len(),
            all@ == name@,
            out@ == in_small_letters(name@).take(i as int),
        decreases all@.len() - i,
    {
        let c: char = all[i];
        let code: u32 = c as u32;
        out.push(
            if 65 <= code && code <= 90 {
                (code as u8 + 32) as char
            } else {
                c
            },
        );
        assert(out@ =~= in_small_letters(name@).take(i + 1));
        i += 1;
    }
    assert(out@ =~= in_small_letters(name@));
    out
}

/// The configuration file of the fleet, as it is shown.
pub fn config_file(assistant: &str) -> (r: String)
    ensures
        r@ == config_path(assistant@),
{
    concat3("~/.", lower(assistant).as_str(), "/fleet.toml")
}

/// The file in the home directory that caches the usage limits.
pub fn cache_file(assistant: &str) -> (r: String)
    ensures
        r@ == cache_name(assistant@),
{
    concat3(".", lower(assistant).as_str(), ".json")
}

/// Capitals and small letters are two ways to write one name: neither changes
/// how long it is, writing it in one and back in the other is writing it in the
/// other, and a name of digits and small letters is its own small writing.
pub proof fn law_a_name_is_one_name(name: Seq<char>)
    ensures
        in_capitals(name).len() == name.len(),
        in_small_letters(name).len() == name.len(),
        in_small_letters(in_capitals(name)) == in_small_letters(name),
        in_capitals(in_small_letters(name)) == in_capitals(name),
        forall|i: int|
            #![trigger name[i]]
            0 <= i < name.len() ==> {
                &&& !('a' <= in_capitals(name)[i] <= 'z')
                &&& !('A' <= in_small_letters(name)[i] <= 'Z')
                &&& !('a' <= name[i] <= 'z') ==> in_capitals(name)[i] == name[i]
                &&& !('A' <= name[i] <= 'Z') ==> in_small_letters(name)[i] == name[i]
            },
        config_path(name) == "~/."@ + in_small_letters(name) + "/fleet.toml"@,
        cache_name(name) == "."@ + in_small_letters(name) + ".json"@,
{
    assert(in_small_letters(in_capitals(name)) =~= in_small_letters(name));
    assert(in_capitals(in_small_letters(name)) =~= in_capitals(name));
}

} // verus!
