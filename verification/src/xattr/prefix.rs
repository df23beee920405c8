//! Attribute namespaces: the prefixes of full attribute names ("user.",
//! "trusted." and so on) and the namespace indices stored on disk.

use vstd::prelude::*;
use crate::bytes::push_bytes;
use vstd::string::StringSliceAdditionalSpecFns;
use crate::consts::{
    EXT4_XATTR_INDEX_POSIX_ACL_ACCESS, EXT4_XATTR_INDEX_POSIX_ACL_DEFAULT, EXT4_XATTR_INDEX_RICHACL,
    EXT4_XATTR_INDEX_SECURITY, EXT4_XATTR_INDEX_SYSTEM, EXT4_XATTR_INDEX_TRUSTED,
    EXT4_XATTR_INDEX_USER,
};

verus! {

/// Number of entries in the prefix table.
pub const PREFIX_COUNT: usize = 7;

/// Bytes of prefix `i` of the table, in table order.
pub open spec fn spec_prefix(i: int) -> Seq<u8> {
    if i == 0 {
        seq![117u8, 115, 101, 114, 46]
    } else if i == 1 {
        seq![115u8, 121, 115, 116, 101, 109, 46, 112, 111, 115, 105, 120, 95, 97, 99, 108, 95, 97, 99, 99, 101, 115, 115]
    } else if i == 2 {
        seq![115u8, 121, 115, 116, 101, 109, 46, 112, 111, 115, 105, 120, 95, 97, 99, 108, 95, 100, 101, 102, 97, 117, 108, 116]
    } else if i == 3 {
        seq![116u8, 114, 117, 115, 116, 101, 100, 46]
    } else if i == 4 {
        seq![115u8, 101, 99, 117, 114, 105, 116, 121, 46]
    } else if i == 5 {
        seq![115u8, 121, 115, 116, 101, 109, 46]
    } else if i == 6 {
        seq![115u8, 121, 115, 116, 101, 109, 46, 114, 105, 99, 104, 97, 99, 108]
    } else {
        Seq::empty()
    }
}

/// Namespace index of prefix `i`.
pub open spec fn spec_prefix_index(i: int) -> u8 {
    if i == 0 {
        EXT4_XATTR_INDEX_USER
    } else if i == 1 {
        EXT4_XATTR_INDEX_POSIX_ACL_ACCESS
    } else if i == 2 {
        EXT4_XATTR_INDEX_POSIX_ACL_DEFAULT
    } else if i == 3 {
        EXT4_XATTR_INDEX_TRUSTED
    } else if i == 4 {
        EXT4_XATTR_INDEX_SECURITY
    } else if i == 5 {
        EXT4_XATTR_INDEX_SYSTEM
    } else if i == 6 {
        EXT4_XATTR_INDEX_RICHACL
    } else {
        0
    }
}

/// Whether prefix `i` ends with a dot, so that a name must follow it.
pub open spec fn spec_prefix_needs_name(i: int) -> bool {
    i == 0 || i == 3 || i == 4 || i == 5
}

/// Whether `full` starts with prefix `i`.
pub open spec fn spec_prefix_matches(full: Seq<u8>, i: int) -> bool {
    full.len() >= spec_prefix(i).len() && full.take(spec_prefix(i).len() as int) == spec_prefix(i)
}

/// The first table entry at or after `i` that `full` starts with.
pub open spec fn spec_first_match(full: Seq<u8>, i: int) -> Option<int>
    decreases 7 - i,
{
    if i >= 7 || i < 0 {
        None
    } else if spec_prefix_matches(full, i) {
        Some(i)
    } else {
        spec_first_match(full, i + 1)
    }
}

fn prefix_bytes(i: usize) -> (r: Vec<u8>)
    requires
        i < 7,
    ensures
        r@ == spec_prefix(i as int),
{
    let mut v: Vec<u8> = Vec::new();
    if i == 0 {
        let a: [u8; 5] = [117u8, 115, 101, 114, 46];
        push_bytes(&mut v, &a);
        assert(v@ =~= spec_prefix(0));
        return v;
    }
    if i == 1 {
        let a: [u8; 23] = [115u8, 121, 115, 116, 101, 109, 46, 112, 111, 115, 105, 120, 95, 97, 99, 108, 95, 97, 99, 99, 101, 115, 115];
        push_bytes(&mut v, &a);
        assert(v@ =~= spec_prefix(1));
        return v;
    }
    if i == 2 {
        let a: [u8; 24] = [115u8, 121, 115, 116, 101, 109, 46, 112, 111, 115, 105, 120, 95, 97, 99, 108, 95, 100, 101, 102, 97, 117, 108, 116];
        push_bytes(&mut v, &a);
        assert(v@ =~= spec_prefix(2));
        return v;
    }
    if i == 3 {
        let a: [u8; 8] = [116u8, 114, 117, 115, 116, 101, 100, 46];
        push_bytes(&mut v, &a);
        assert(v@ =~= spec_prefix(3));
        return v;
    }
    if i == 4 {
        let a: [u8; 9] = [115u8, 101, 99, 117, 114, 105, 116, 121, 46];
        push_bytes(&mut v, &a);
        assert(v@ =~= spec_prefix(4));
        return v;
    }
    if i == 5 {
        let a: [u8; 7] = [115u8, 121, 115, 116, 101, 109, 46];
        push_bytes(&mut v, &a);
        assert(v@ =~= spec_prefix(5));
        return v;
    }
    let a: [u8; 14] = [115u8, 121, 115, 116, 101, 109, 46, 114, 105, 99, 104, 97, 99, 108];
    push_bytes(&mut v, &a);
    assert(v@ =~= spec_prefix(6));
    v
}

fn prefix_index(i: usize) -> (r: u8)
    requires
        i < 7,
    ensures
        r == spec_prefix_index(i as int),
{
    if i == 0 {
        return EXT4_XATTR_INDEX_USER;
    }
    if i == 1 {
        return EXT4_XATTR_INDEX_POSIX_ACL_ACCESS;
    }
    if i == 2 {
        return EXT4_XATTR_INDEX_POSIX_ACL_DEFAULT;
    }
    if i == 3 {
        return EXT4_XATTR_INDEX_TRUSTED;
    }
    if i == 4 {
        return EXT4_XATTR_INDEX_SECURITY;
    }
    if i == 5 {
        return EXT4_XATTR_INDEX_SYSTEM;
    }
    EXT4_XATTR_INDEX_RICHACL
}

fn starts_with(full: &[u8], prefix: &[u8]) -> (r: bool)
    ensures
        r == (full@.len() >= prefix@.len() && full@.take(prefix@.len() as int) == prefix@),
{
    if full.len() < prefix.len() {
        return false;
    }
    let mut i: usize = 0;
    while i < prefix.len()
        invariant
            i <= prefix@.len(),
            prefix@.len() <= full@.len(),
            forall|k: int| 0 <= k < i ==> full@[k] == prefix@[k],
        decreases prefix@.len() - i,
    {
        if full[i] != prefix[i] {
            assert(full@.take(prefix@.len() as int)[i as int] != prefix@[i as int]);
            return false;
        }
        i = i + 1;
    }
    assert(full@.take(prefix@.len() as int) =~= prefix@);
    true
}

/// How a full attribute name splits: its namespace index and the name
/// after the prefix, as `extract_xattr_name` gives them.
pub open spec fn spec_split_name(full: Seq<u8>) -> Option<(u8, Seq<u8>)> {
    match spec_first_match(full, 0) {
        None => None,
        Some(i) => {
            let plen = spec_prefix(i).len() as int;
            if full.len() == 0 {
                None
            } else if spec_prefix_needs_name(i) && full.len() == plen {
                None
            } else if spec_prefix_needs_name(i) {
                if vstd::utf8::is_char_boundary(full, plen) {
                    Some((spec_prefix_index(i), full.skip(plen)))
                } else {
                    None
                }
            } else {
                Some((spec_prefix_index(i), Seq::<u8>::empty()))
            }
        },
    }
}

/// The prefix bytes of namespace `name_index`: the first table entry with
/// that index.
pub open spec fn spec_index_prefix_from(name_index: u8, i: int) -> Option<Seq<u8>>
    decreases 7 - i,
{
    if i >= 7 || i < 0 {
        None
    } else if spec_prefix_index(i) == name_index {
        Some(spec_prefix(i))
    } else {
        spec_index_prefix_from(name_index, i + 1)
    }
}

/// The prefix bytes of namespace `name_index`, `None` for an unknown one.
pub open spec fn spec_index_prefix(name_index: u8) -> Option<Seq<u8>> {
    spec_index_prefix_from(name_index, 0)
}

/// The prefix bytes of namespace `name_index`, `None` for an unknown one.
pub fn prefix_of_index(name_index: u8) -> (r: Option<Vec<u8>>)
    ensures
        match spec_index_prefix(name_index) {
            None => r is None,
            Some(p) => r matches Some(v) && v@ == p,
        },
        r matches Some(v) ==> v@.len() <= 24,
{
    let mut i: usize = 0;
    while i < PREFIX_COUNT
        invariant
            i <= 7,
            spec_index_prefix(name_index) == spec_index_prefix_from(name_index, i as int),
        decreases 7 - i,
    {
        if prefix_index(i) == name_index {
            return Some(prefix_bytes(i));
        }
        i = i + 1;
    }
    None
}

/// Splits a full attribute name into its namespace index, the name after
/// the prefix, and that name's length in bytes. The first matching prefix
/// of the table decides; a dotted prefix needs a nonempty name after it,
/// the other prefixes stand alone and give an empty name. `None` for an
/// empty name, no matching prefix, or a dotted prefix with nothing after
/// it.
pub fn extract_xattr_name(full_name: &str) -> (r: Option<(u8, &str, usize)>)
    ensures
        match spec_split_name(full_name.spec_bytes()) {
            None => r is None,
            Some((idx, name)) => r matches Some((i, n, len)) && i == idx && n.spec_bytes() == name
                && len == name.len(),
        },
        ({
            let full = full_name.spec_bytes();
            match spec_first_match(full, 0) {
                None => r is None,
                Some(i) => {
                    let plen = spec_prefix(i).len() as int;
                    if full.len() == 0 {
                        r is None
                    } else if spec_prefix_needs_name(i) && full.len() == plen {
                        r is None
                    } else if spec_prefix_needs_name(i) {
                        if vstd::utf8::is_char_boundary(full, plen) {
                            r matches Some((idx, name, n)) && idx == spec_prefix_index(i)
                                && name.spec_bytes() == full.skip(plen) && n == full.len() - plen
                        } else {
                            r is None
                        }
                    } else {
                        r matches Some((idx, name, n)) && idx == spec_prefix_index(i)
                            && name.spec_bytes() == Seq::<u8>::empty() && n == 0
                    }
                },
            }
        }),
{
    if full_name.is_empty() {
        proof {
            vstd::string::is_ascii_spec_bytes(full_name);
        }
        assert(full_name.spec_bytes().len() == 0) by {
            broadcast use vstd::utf8::encode_utf8_valid_utf8;
            assert(full_name@ =~= Seq::<char>::empty());
        }
        return None;
    }
    let full = full_name.as_bytes();
    let mut i: usize = 0;
    while i < PREFIX_COUNT
        invariant
            i <= 7,
            full@ == full_name.spec_bytes(),
            full@.len() > 0,
            spec_first_match(full@, 0) == spec_first_match(full@, i as int),
        decreases 7 - i,
    {
        let prefix = prefix_bytes(i);
        if starts_with(full, prefix.as_slice()) {
            let prefix_len = prefix.len();
            let require_name = i == 0 || i == 3 || i == 4 || i == 5;
            let name_len = full.len() - prefix_len;
            if require_name && name_len == 0 {
                return None;
            }
            let name_index = prefix_index(i);
            if require_name {
                if !full_name.is_char_boundary(prefix_len) {
                    return None;
                }
                let (_, name) = full_name.split_at(prefix_len);
                return Some((name_index, name, name_len));
            } else {
                proof {
                    reveal_strlit("");
                }
                let empty: &str = "";
                assert(empty.spec_bytes() =~= Seq::<u8>::empty()) by {
                    assert(empty@ =~= Seq::<char>::empty());
                }
                return Some((name_index, empty, 0));
            }
        }
        i = i + 1;
    }
    None
}

/// The prefix of namespace `name_index` and its length.
pub open spec fn spec_get_prefix(name_index: u8) -> Option<(&'static str, usize)> {
    if name_index == EXT4_XATTR_INDEX_USER {
        Some(("user.", 5usize))
    } else if name_index == EXT4_XATTR_INDEX_POSIX_ACL_ACCESS {
        Some(("system.posix_acl_access", 23usize))
    } else if name_index == EXT4_XATTR_INDEX_POSIX_ACL_DEFAULT {
        Some(("system.posix_acl_default", 24usize))
    } else if name_index == EXT4_XATTR_INDEX_TRUSTED {
        Some(("trusted.", 8usize))
    } else if name_index == EXT4_XATTR_INDEX_SECURITY {
        Some(("security.", 9usize))
    } else if name_index == EXT4_XATTR_INDEX_SYSTEM {
        Some(("system.", 7usize))
    } else if name_index == EXT4_XATTR_INDEX_RICHACL {
        Some(("system.richacl", 14usize))
    } else {
        None
    }
}

/// The prefix string of a namespace index and its length; `None` for an
/// unknown index.
pub fn get_xattr_name_prefix(name_index: u8) -> (r: Option<(&'static str, usize)>)
    ensures
        r == spec_get_prefix(name_index),
{
    if name_index == EXT4_XATTR_INDEX_USER {
        proof {
            reveal_strlit("user.");
        }
        return Some(("user.", 5));
    }
    if name_index == EXT4_XATTR_INDEX_POSIX_ACL_ACCESS {
        proof {
            reveal_strlit("system.posix_acl_access");
        }
        return Some(("system.posix_acl_access", 23));
    }
    if name_index == EXT4_XATTR_INDEX_POSIX_ACL_DEFAULT {
        proof {
            reveal_strlit("system.posix_acl_default");
        }
        return Some(("system.posix_acl_default", 24));
    }
    if name_index == EXT4_XATTR_INDEX_TRUSTED {
        proof {
            reveal_strlit("trusted.");
        }
        return Some(("trusted.", 8));
    }
    if name_index == EXT4_XATTR_INDEX_SECURITY {
        proof {
            reveal_strlit("security.");
        }
        return Some(("security.", 9));
    }
    if name_index == EXT4_XATTR_INDEX_SYSTEM {
        proof {
            reveal_strlit("system.");
        }
        return Some(("system.", 7));
    }
    if name_index == EXT4_XATTR_INDEX_RICHACL {
        proof {
            reveal_strlit("system.richacl");
        }
        return Some(("system.richacl", 14));
    }
    None
}


/// The first table entry a name starts with is an entry it does start
/// with.
proof fn lemma_first_match_matches(full: Seq<u8>, i: int)
    ensures
        spec_first_match(full, i) matches Some(k) ==> 0 <= k < 7 && spec_prefix_matches(full, k),
    decreases 7 - i,
{
    if !(i >= 7 || i < 0) && !spec_prefix_matches(full, i) {
        lemma_first_match_matches(full, i + 1);
    }
}

/// Splitting a full attribute name and putting the prefix of its
/// namespace back in front of a non-empty short name gives the full name
/// again.
pub proof fn lemma_split_then_join(full: Seq<u8>)
    requires
        spec_split_name(full) matches Some((idx, nm)) && nm.len() > 0,
    ensures
        ({
            let (idx, nm) = spec_split_name(full)->0;
            spec_index_prefix(idx) matches Some(p) && p + nm == full
        }),
{
    lemma_first_match_matches(full, 0);
    let k = spec_first_match(full, 0)->0;
    let p = spec_prefix(k);
    let (idx, nm) = spec_split_name(full)->0;
    assert(spec_prefix_needs_name(k));
    assert(nm == full.skip(p.len() as int));
    assert(full.take(p.len() as int) == p);
    assert(p + nm =~= full);
    reveal_with_fuel(spec_index_prefix_from, 8);
    assert(spec_index_prefix(idx) == Some(p));
}


/// One entry of the prefix table as text: the string's bytes are the
/// prefix bytes.
proof fn lemma_prefix_text(t: &str, i: int)
    requires
        0 <= i < 7,
        vstd::string::is_ascii(t),
        t@.len() == spec_prefix(i).len(),
        forall|j: int| 0 <= j < t@.len() ==> t@[j] as u8 == #[trigger] spec_prefix(i)[j],
    ensures
        t.spec_bytes() == spec_prefix(i),
{
    broadcast use vstd::string::is_ascii_spec_bytes;
    assert(t.spec_bytes() =~= spec_prefix(i));
}

/// The prefix strings of `get_xattr_name_prefix` are the prefix bytes
/// the names are split by: a namespace has a prefix string exactly when it
/// has prefix bytes, and then the string's bytes are those bytes and its
/// length is theirs.
pub proof fn lemma_prefix_strings(name_index: u8)
    ensures
        spec_get_prefix(name_index) is Some <==> spec_index_prefix(name_index) is Some,
        spec_get_prefix(name_index) matches Some((t, n)) ==> t.spec_bytes() == spec_index_prefix(name_index)->0
            && n == t.spec_bytes().len(),
{
    reveal_with_fuel(spec_index_prefix_from, 8);
    if name_index == EXT4_XATTR_INDEX_USER {
        reveal_strlit("user.");
        lemma_prefix_text("user.", 0);
    } else if name_index == EXT4_XATTR_INDEX_POSIX_ACL_ACCESS {
        reveal_strlit("system.posix_acl_access");
        lemma_prefix_text("system.posix_acl_access", 1);
    } else if name_index == EXT4_XATTR_INDEX_POSIX_ACL_DEFAULT {
        reveal_strlit("system.posix_acl_default");
        lemma_prefix_text("system.posix_acl_default", 2);
    } else if name_index == EXT4_XATTR_INDEX_TRUSTED {
        reveal_strlit("trusted.");
        lemma_prefix_text("trusted.", 3);
    } else if name_index == EXT4_XATTR_INDEX_SECURITY {
        reveal_strlit("security.");
        lemma_prefix_text("security.", 4);
    } else if name_index == EXT4_XATTR_INDEX_SYSTEM {
        reveal_strlit("system.");
        lemma_prefix_text("system.", 5);
    } else if name_index == EXT4_XATTR_INDEX_RICHACL {
        reveal_strlit("system.richacl");
        lemma_prefix_text("system.richacl", 6);
    }
}

} // verus!
