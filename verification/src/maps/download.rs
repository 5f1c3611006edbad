//! Recognising the map file that DepotDownloader leaves behind when it
//! downloads a workshop map.
//!
//! The download directory holds, among other things, one file named
//! `<workshop ID>_<anything>.vpk` for the map; its contents are hashed to
//! get the map's checksum.

use crate::text::{parse_u32, parsed_u32};
use vstd::prelude::*;

verus! {

/// The position of the first `c` in `s` at or after `i`.
pub open spec fn index_from(s: Seq<char>, c: char, i: int) -> Option<int>
    decreases s.len() - i,
{
    if i < 0 || i >= s.len() {
        None
    } else if s[i] == c {
        Some(i)
    } else {
        index_from(s, c, i + 1)
    }
}

/// Whether `name` is the map file of workshop item `workshop_id`.
///
/// The name is split at its first `_` into a prefix and the rest; the rest is
/// split at its first `.`, and what follows that dot must be exactly `vpk`.
/// The prefix must read as a workshop ID (an unsigned 32-bit integer) equal
/// to `workshop_id`.
pub open spec fn is_workshop_vpk(name: Seq<char>, workshop_id: u32) -> bool {
    match index_from(name, '_', 0) {
        None => false,
        Some(u) => {
            let rest = name.skip(u + 1);
            match index_from(rest, '.', 0) {
                None => false,
                Some(d) => rest.skip(d + 1) == seq!['v', 'p', 'k'] && parsed_u32(name.take(u))
                    == Some(workshop_id),
            }
        },
    }
}

/// A position that [`index_from`] reports holds `c`, lies at or after `i`
/// and inside `s`, and no `c` comes between `i` and it.
proof fn lemma_index_from(s: Seq<char>, c: char, i: int)
    requires
        0 <= i,
    ensures
        index_from(s, c, i) matches Some(k) ==> i <= k < s.len() && s[k] == c && forall|m: int|
            i <= m < k ==> s[m] != c,
        index_from(s, c, i) is None ==> forall|m: int| i <= m < s.len() ==> s[m] != c,
    decreases s.len() - i,
{
    if i < s.len() {
        lemma_index_from(s, c, i + 1);
    }
}

fn find_char(s: &str, c: char) -> (r: Option<usize>)
    ensures
        r matches Some(i) ==> i < s@.len(),
        r matches Some(i) ==> index_from(s@, c, 0) == Some(i as int),
        r is None ==> index_from(s@, c, 0) is None,
{
    let len = s.unicode_len();
    let mut i: usize = 0;
    while i < len
        invariant
            len == s@.len(),
            i <= len,
            index_from(s@, c, 0) == index_from(s@, c, i as int),
        decreases len - i,
    {
        if s.get_char(i) == c {
            proof {
                lemma_index_from(s@, c, 0);
            }
            return Some(i);
        }
        i = i + 1;
    }
    None
}


/// Whether the file named `filename` in the download directory is the map
/// file of workshop item `workshop_id`.
pub fn is_downloaded_map_file(filename: &str, workshop_id: u32) -> (r: bool)
    ensures
        r == is_workshop_vpk(filename@, workshop_id),
{
    let len = filename.unicode_len();
    let u = match find_char(filename, '_') {
        None => return false,
        Some(u) => u,
    };
    let prefix = filename.substring_char(0, u);
    let rest = filename.substring_char(u + 1, len);
    proof {
        assert(prefix@ == filename@.take(u as int));
        assert(rest@ == filename@.skip(u + 1));
    }
    let rest_len = rest.unicode_len();
    let d = match find_char(rest, '.') {
        None => return false,
        Some(d) => d,
    };
    let extension = rest.substring_char(d + 1, rest_len);
    proof {
        assert(extension@ == rest@.skip(d + 1));
    }
    let is_vpk = extension.unicode_len() == 3 && extension.get_char(0) == 'v'
        && extension.get_char(1) == 'p' && extension.get_char(2) == 'k';
    proof {
        if is_vpk {
            assert(extension@ =~= seq!['v', 'p', 'k']);
        }
    }
    if !is_vpk {
        return false;
    }
    match parse_u32(prefix) {
        Some(id) => id == workshop_id,
        None => false,
    }
}

} // verus!
