use vstd::prelude::*;
use vstd::string::StrSliceExecFns;

verus! {

/// A role that a delegate can hold on an asset.
#[derive(Clone, Copy, PartialEq, Eq, Structural)]
pub enum Role {
    Transfer,
    Lock,
    Burn,
}

/// The lowercase form of a string, as `str::to_lowercase` computes it by the
/// Unicode lowercase mapping.
pub uninterp spec fn lowercase(s: Seq<char>) -> Seq<char>;

/// An ASCII letter in lowercase; every other character as it is.
pub open spec fn ascii_lower_char(c: char) -> char {
    if 'A' <= c <= 'Z' {
        ((c as u32) + 32) as char
    } else {
        c
    }
}

/// A string with its ASCII letters in lowercase.
pub open spec fn ascii_lowercase(s: Seq<char>) -> Seq<char> {
    s.map_values(|c: char| ascii_lower_char(c))
}

/// The role that a lowercase name stands for, if any.
pub open spec fn role_named(name: Seq<char>) -> Option<Role> {
    if name == "burn"@ {
        Some(Role::Burn)
    } else if name == "lock"@ {
        Some(Role::Lock)
    } else if name == "transfer"@ {
        Some(Role::Transfer)
    } else {
        None
    }
}

/// The role that a name given on the command line stands for: its lowercase
/// form is one of "burn", "lock" and "transfer".
pub open spec fn role_of(name: Seq<char>) -> Option<Role> {
    role_named(lowercase(name))
}

/// `str::to_lowercase`: the Unicode lowercase form of the string, which for
/// an ASCII string is the string with `A`..`Z` turned into `a`..`z`.
#[verifier::external_body]
fn to_lowercase(s: &str) -> (r: String)
    ensures
        r@ == lowercase(s@),
        vstd::utf8::is_ascii_chars(s@) ==> r@ == ascii_lowercase(s@),
{
    s.to_lowercase()
}

/// Whether two strings hold the same characters.
pub fn same_text(a: &str, b: &str) -> (r: bool)
    ensures
        r == (a@ == b@),
{
    let n = a.unicode_len();
    if n != b.unicode_len() {
        return false;
    }
    let mut i: usize = 0;
    while i < n
        invariant
            0 <= i <= n,
            n == a@.len(),
            n == b@.len(),
            forall|j: int| 0 <= j < i ==> a@[j] == b@[j],
        decreases n - i,
    {
        if a.get_char(i) != b.get_char(i) {
            return false;
        }
        i += 1;
    }
    assert(a@ =~= b@);
    true
}

/// The role that an already lowercase name stands for.
pub fn role_from_lowercase(name: &str) -> (r: Option<Role>)
    ensures
        r == role_named(name@),
{
    if same_text(name, "burn") {
        Some(Role::Burn)
    } else if same_text(name, "lock") {
        Some(Role::Lock)
    } else if same_text(name, "transfer") {
        Some(Role::Transfer)
    } else {
        None
    }
}

/// The role that a name stands for, whatever the case of its letters.
pub fn parse_role(name: &str) -> (r: Option<Role>)
    ensures
        r == role_of(name@),
        vstd::utf8::is_ascii_chars(name@) ==> r == role_named(ascii_lowercase(name@)),
{
    let lower = to_lowercase(name);
    role_from_lowercase(lower.as_str())
}

/// Whether every name before `upto` stands for a role.
pub open spec fn all_roles_known(names: Seq<String>, upto: int) -> bool {
    forall|j: int| 0 <= j < upto ==> (#[trigger] role_of(names[j]@)) is Some
}

/// The roles that names all standing for one stand for, in order.
pub open spec fn roles_of(names: Seq<String>) -> Seq<Role> {
    Seq::new(names.len(), |j: int| role_of(names[j]@)->0)
}

/// Whether the name at `i` is the first that stands for no role.
pub open spec fn first_unknown(names: Seq<String>, i: int) -> bool {
    &&& 0 <= i < names.len()
    &&& all_roles_known(names, i)
    &&& role_of(names[i]@) is None
}

/// The roles that the names stand for, in order, or the first name that
/// stands for none.
pub fn parse_roles(names: &Vec<String>) -> (r: Result<Vec<Role>, String>)
    ensures
        r is Ok <==> all_roles_known(names@, names@.len() as int),
        r matches Ok(roles) ==> roles@ == roles_of(names@),
        r matches Err(bad) ==> exists|i: int| first_unknown(names@, i) && bad@ == (#[trigger] names@[i])@,
{
    let mut roles: Vec<Role> = Vec::new();
    let mut i: usize = 0;
    while i < names.len()
        invariant
            0 <= i <= names.len(),
            roles@.len() == i,
            all_roles_known(names@, i as int),
            forall|j: int| 0 <= j < i ==> Some(#[trigger] roles@[j]) == role_of(names@[j]@),
        decreases names.len() - i,
    {
        match parse_role(names[i].as_str()) {
            Some(role) => roles.push(role),
            None => {
                let bad = names[i].clone();
                assert(first_unknown(names@, i as int));
                return Err(bad);
            },
        }
        i += 1;
    }
    assert(roles@ =~= roles_of(names@)) by {
        assert forall|j: int| 0 <= j < names@.len() implies roles@[j] == roles_of(names@)[j] by {
            assert(Some(roles@[j]) == role_of(names@[j]@));
        }
    }
    Ok(roles)
}

} // verus!
