//! Path-capability decisions for the stub platform layer.
//!
//! The host gathers the raw facts (does metadata exist, is it read-only,
//! what is the extension, what does `PATH` hold); the decisions about them
//! are pure functions here.  On this platform there are no block or
//! character devices, FIFOs, sockets, or mode bits.

use vstd::prelude::*;

use crate::error::Error;
use crate::strings::str_eq;

verus! {

/// A path is readable when its metadata can be read at all.
pub fn readable_from_metadata(metadata_exists: bool) -> (r: bool)
    ensures
        r == metadata_exists,
{
    metadata_exists
}

/// A path is writable when it exists and is not marked read-only.
pub fn writable_from_permissions(metadata_exists: bool, readonly: bool) -> (r: bool)
    ensures
        r == (metadata_exists && !readonly),
{
    metadata_exists && !readonly
}

/// The lowercased extensions this platform treats as executable.
pub open spec fn spec_executable_extension(ext: Seq<char>) -> bool {
    ext == "exe"@ || ext == "cmd"@ || ext == "bat"@ || ext == "com"@ || ext == "ps1"@ || ext
        == "msc"@
}

/// ASCII-lowercases a sequence of characters.
pub open spec fn spec_ascii_lower(s: Seq<char>) -> Seq<char> {
    s.map_values(
        |c: char|
            if 'A' <= c <= 'Z' {
                (((c as int) + 32) as u32) as char
            } else {
                c
            },
    )
}

/// Lowercases ASCII letters; other characters pass through.
pub fn ascii_lowercase(s: &str) -> (r: String)
    ensures
        r@ == spec_ascii_lower(s@),
{
    let n = s.unicode_len();
    let mut out = String::new();
    let mut i: usize = 0;
    while i < n
        invariant
            i <= n,
            n == s@.len(),
            out@ =~= spec_ascii_lower(s@).subrange(0, i as int),
        decreases n - i,
    {
        let c = s.get_char(i);
        let u = c as u32;
        let lc: char = if u >= 65 && u <= 90 {
            proof {
                vstd::utf8::char_u32_cast(c, u);
            }
            ((u + 32) as u8) as char
        } else {
            c
        };
        out.append(crate::strings::char_to_string(lc).as_str());
        proof {
            vstd::utf8::char_u32_cast(c, c as u32);
            let m = spec_ascii_lower(s@);
            assert(m.subrange(0, i + 1).drop_last() =~= m.subrange(0, i as int));
            assert(m.subrange(0, i + 1).last() == m[i as int]);
            assert(m[i as int] == lc);
        }
        i = i + 1;
    }
    proof {
        assert(spec_ascii_lower(s@).subrange(0, n as int) =~= spec_ascii_lower(s@));
    }
    out
}

/// A path is executable here when it exists and its lowercased extension is
/// one of the platform's executable kinds.
pub fn executable_from_extension(path_exists: bool, extension: Option<&String>) -> (r: bool)
    ensures
        r == (path_exists && (extension matches Some(e) && spec_executable_extension(
            spec_ascii_lower(e@),
        ))),
{
    if !path_exists {
        return false;
    }
    match extension {
        Some(e) => {
            let low = ascii_lowercase(e.as_str());
            let l = low.as_str();
            str_eq(l, "exe") || str_eq(l, "cmd") || str_eq(l, "bat") || str_eq(l, "com") || str_eq(
                l,
                "ps1",
            ) || str_eq(l, "msc")
        },
        None => false,
    }
}

/// No path here is a block device.
pub fn exists_and_is_block_device() -> (r: bool)
    ensures
        !r,
{
    false
}

/// No path here is a character device.
pub fn exists_and_is_char_device() -> (r: bool)
    ensures
        !r,
{
    false
}

/// No path here is a FIFO.
pub fn exists_and_is_fifo() -> (r: bool)
    ensures
        !r,
{
    false
}

/// No path here is a socket.
pub fn exists_and_is_socket() -> (r: bool)
    ensures
        !r,
{
    false
}

/// This platform has no setgid bit.
pub fn exists_and_is_setgid() -> (r: bool)
    ensures
        !r,
{
    false
}

/// This platform has no setuid bit.
pub fn exists_and_is_setuid() -> (r: bool)
    ensures
        !r,
{
    false
}

/// This platform has no sticky bit.
pub fn exists_and_is_sticky_bit() -> (r: bool)
    ensures
        !r,
{
    false
}

/// This platform reports no device or inode numbers; both come back zero.
pub fn get_device_and_inode() -> (r: Result<(u64, u64), Error>)
    ensures
        r matches Ok(p) && p.0 == 0 && p.1 == 0,
{
    Ok((0, 0))
}

/// This platform has no Unix group id.
pub fn metadata_gid() -> (r: u32)
    ensures
        r == 0,
{
    0
}

/// This platform has no Unix user id.
pub fn metadata_uid() -> (r: u32)
    ensures
        r == 0,
{
    0
}

/// The index of the first separator at or after `i`.
pub open spec fn spec_find_sep(s: Seq<char>, i: int) -> Option<int>
    decreases s.len() - i,
{
    if i < 0 || i >= s.len() {
        None
    } else if s[i] == ';' {
        Some(i)
    } else {
        spec_find_sep(s, i + 1)
    }
}

/// The non-empty `;`-separated segments of `s[i..]`.
pub open spec fn spec_split_paths(s: Seq<char>, i: int) -> Seq<Seq<char>>
    decreases s.len() - i,
{
    if i < 0 || i >= s.len() {
        Seq::<Seq<char>>::empty()
    } else if s[i] == ';' {
        spec_split_paths(s, i + 1)
    } else {
        match spec_find_sep(s, i) {
            None => seq![s.subrange(i, s.len() as int)],
            Some(k) => if i <= k < s.len() {
                seq![s.subrange(i, k)] + spec_split_paths(s, k + 1)
            } else {
                seq![s.subrange(i, s.len() as int)]
            },
        }
    }
}

fn find_sep(s: &str, start: usize) -> (r: Option<usize>)
    requires
        start <= s@.len(),
    ensures
        match r {
            Some(k) => spec_find_sep(s@, start as int) == Some(k as int) && start <= k
                < s@.len(),
            None => spec_find_sep(s@, start as int) is None,
        },
{
    let n = s.unicode_len();
    let mut i = start;
    while i < n
        invariant
            start <= i <= n,
            n == s@.len(),
            spec_find_sep(s@, start as int) == spec_find_sep(s@, i as int),
        decreases n - i,
    {
        if s.get_char(i) == ';' {
            return Some(i);
        }
        i = i + 1;
    }
    None
}

/// Splits the search-path variable on its separator, dropping empty
/// segments, as the executable search paths.
pub fn get_default_executable_search_paths(path_var: &str) -> (r: Vec<String>)
    ensures
        r@.map_values(|p: String| p@) =~= spec_split_paths(path_var@, 0),
    {
    let n = path_var.unicode_len();
    let mut out: Vec<String> = Vec::new();
    let mut i: usize = 0;
    while i < n
        invariant
            i <= n,
            n == path_var@.len(),
            spec_split_paths(path_var@, 0) =~= out@.map_values(|p: String| p@)
                + spec_split_paths(path_var@, i as int),
        decreases n - i,
    {
        let ghost pre = out@.map_values(|p: String| p@);
        if path_var.get_char(i) == ';' {
            i = i + 1;
        } else {
            match find_sep(path_var, i) {
                Some(k) => {
                    out.push(String::from_str(path_var.substring_char(i, k)));
                    proof {
                        assert(out@.map_values(|p: String| p@) =~= pre + seq![
                            path_var@.subrange(i as int, k as int),
                        ]);
                    }
                    i = k + 1;
                },
                None => {
                    out.push(String::from_str(path_var.substring_char(i, n)));
                    proof {
                        assert(out@.map_values(|p: String| p@) =~= pre + seq![
                            path_var@.subrange(i as int, n as int),
                        ]);
                    }
                    i = n;
                },
            }
        }
    }
    out
}

/// The default locations of standard utilities, under the given system
/// root.
pub fn get_default_standard_utils_paths(system_root: &str) -> (r: Vec<String>)
    ensures
        r@.len() == 2,
        r@[0]@ == system_root@ + "\\System32"@,
        r@[1]@ == system_root@ + "\\System32\\WindowsPowerShell\\v1.0"@,
{
    let mut out: Vec<String> = Vec::new();
    out.push(String::from_str(system_root).concat("\\System32"));
    out.push(String::from_str(system_root).concat("\\System32\\WindowsPowerShell\\v1.0"));
    out
}

} // verus!
