use vstd::prelude::*;

use crate::keys::{base64_encode, base64_encoding_of};

verus! {

/// Longest node id, in characters.
pub const MAX_NODE_ID_LEN: usize = 32;

/// The characters of Unicode's White_Space property.
pub open spec fn is_white_space(c: char) -> bool {
    let u = c as u32;
    (0x9 <= u <= 0xd) || u == 0x20 || u == 0x85 || u == 0xa0 || u == 0x1680 || (0x2000 <= u
        <= 0x200a) || u == 0x2028 || u == 0x2029 || u == 0x202f || u == 0x205f || u == 0x3000
}

/// The character code with an ASCII upper-case letter taken to lower case.
pub open spec fn ascii_lower_code(c: char) -> u32 {
    let u = c as u32;
    if 0x41 <= u <= 0x5a {
        (u + 0x20) as u32
    } else {
        u
    }
}

/// Whether `a` and `b` are equal when ASCII letters are compared without case.
pub open spec fn eq_ignore_ascii_case(a: Seq<char>, b: Seq<char>) -> bool {
    a.len() == b.len() && forall|i: int| 0 <= i < a.len() ==> ascii_lower_code(a[i])
        == ascii_lower_code(b[i])
}

/// A node id is 1 to 32 characters, none of them white space, and is not
/// the reserved name `local` in any case.
pub open spec fn valid_node_id(id: Seq<char>) -> bool {
    &&& 1 <= id.len() <= MAX_NODE_ID_LEN
    &&& forall|i: int| 0 <= i < id.len() ==> !is_white_space(#[trigger] id[i])
    &&& !eq_ignore_ascii_case(id, "local"@)
}

fn white_space(c: char) -> (r: bool)
    ensures
        r == is_white_space(c),
{
    let u = c as u32;
    (0x9 <= u && u <= 0xd) || u == 0x20 || u == 0x85 || u == 0xa0 || u == 0x1680 || (0x2000 <= u
        && u <= 0x200a) || u == 0x2028 || u == 0x2029 || u == 0x202f || u == 0x205f || u == 0x3000
}

fn lower_code(c: char) -> (r: u32)
    ensures
        r == ascii_lower_code(c),
{
    let u = c as u32;
    if 0x41 <= u && u <= 0x5a {
        u + 0x20
    } else {
        u
    }
}

/// Compares two strings, ignoring the case of ASCII letters.
pub fn str_eq_ignore_ascii_case(a: &str, b: &str) -> (r: bool)
    ensures
        r == eq_ignore_ascii_case(a@, b@),
{
    let n = a.unicode_len();
    if n != b.unicode_len() {
        return false;
    }
    let mut i: usize = 0;
    while i < n
        invariant
            n == a@.len(),
            n == b@.len(),
            i <= n,
            forall|j: int| 0 <= j < i ==> ascii_lower_code(a@[j]) == ascii_lower_code(b@[j]),
        decreases n - i,
    {
        if lower_code(a.get_char(i)) != lower_code(b.get_char(i)) {
            return false;
        }
        i = i + 1;
    }
    true
}

/// Whether `name` may serve as a node id.
pub fn validate_node_id(name: &str) -> (r: bool)
    ensures
        r == valid_node_id(name@),
{
    if str_eq_ignore_ascii_case(name, "local") {
        return false;
    }
    let n = name.unicode_len();
    if n < 1 || n > MAX_NODE_ID_LEN {
        return false;
    }
    let mut i: usize = 0;
    while i < n
        invariant
            n == name@.len(),
            i <= n,
            forall|j: int| 0 <= j < i ==> !is_white_space(#[trigger] name@[j]),
        decreases n - i,
    {
        if white_space(name.get_char(i)) {
            return false;
        }
        i = i + 1;
    }
    true
}

/// The bytes a node id is derived from: the MAC address where there is one,
/// else the host name, else the random bytes.
pub open spec fn node_id_source(mac: Option<[u8; 6]>, hostname: Option<Vec<u8>>, random: [u8; 16]) -> Seq<u8> {
    match mac {
        Some(m) => m@,
        None => match hostname {
            Some(h) => h@,
            None => random@,
        },
    }
}

/// Derives this node's default id: the base64 text of its MAC address,
/// else of its host name, else of 16 random bytes.
pub fn derive_node_id(mac: Option<[u8; 6]>, hostname: Option<Vec<u8>>, random: [u8; 16]) -> (r: String)
    ensures
        r@ == base64_encoding_of(node_id_source(mac, hostname, random)),
{
    match mac {
        Some(m) => base64_encode(&m),
        None => match hostname {
            Some(h) => base64_encode(h.as_slice()),
            None => base64_encode(&random),
        },
    }
}

} // verus!
