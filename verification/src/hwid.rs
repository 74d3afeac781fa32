//! Names of USB devices from the hardware database (`usb.ids`).
use vstd::prelude::*;
use vstd::utf8::{encode_scalar, encode_utf8};
use crate::text::{has_prefix, parse_unsigned, parse_unsigned_exec, spec_trim, starts_with, trim};

verus! {

/// Whether the first `k` characters are ASCII.
pub open spec fn ascii_prefix(s: Seq<char>, k: int) -> bool {
    k <= s.len() && forall|j: int| 0 <= j < k ==> (#[trigger] s[j] as u32) < 128
}

/// The four hexadecimal digits at `start` (the id column of a vendor or
/// product line). Where a non-ASCII character comes first, the byte slice
/// the id is read from cannot be a number.
pub open spec fn id_column(s: Seq<char>, start: int) -> Option<nat> {
    if ascii_prefix(s, start + 4) {
        parse_unsigned(s.subrange(start, start + 4), 16, 0xffff)
    } else {
        None
    }
}

/// The length of a line in bytes.
pub open spec fn byte_len(s: Seq<char>) -> nat {
    encode_utf8(s).len()
}

/// The lookup from line `i` on, with the vendor found so far.
pub open spec fn hwid_scan(lines: Seq<String>, i: int, vendor: Option<Seq<char>>, vendor_id: u16, product_id: u16)
    -> Option<(Seq<char>, Option<Seq<char>>)>
    decreases lines.len() - i,
{
    if i < 0 || i >= lines.len() {
        None
    } else {
        let l = lines[i]@;
        if has_prefix(l, "#"@) {
            hwid_scan(lines, i + 1, vendor, vendor_id, product_id)
        } else if vendor is Some && has_prefix(l, "\t"@) && byte_len(l) > 5 {
            if id_column(l, 1) == Some(product_id as nat) {
                Some((vendor->0, Some(spec_trim(l.subrange(5, l.len() as int)))))
            } else {
                hwid_scan(lines, i + 1, vendor, vendor_id, product_id)
            }
        } else if vendor is Some {
            Some((vendor->0, None))
        } else if byte_len(l) > 4 && id_column(l, 0) == Some(vendor_id as nat) {
            hwid_scan(lines, i + 1, Some(spec_trim(l.subrange(4, l.len() as int))), vendor_id, product_id)
        } else {
            hwid_scan(lines, i + 1, vendor, vendor_id, product_id)
        }
    }
}

/// Whether byte position `n` of the line's encoding falls between two
/// characters (or at an end), counting from the front.
pub open spec fn boundary_at(s: Seq<char>, n: int) -> bool
    decreases s.len(),
{
    if n == 0 {
        true
    } else if n < 0 || s.len() == 0 {
        false
    } else {
        boundary_at(s.drop_first(), n - encode_scalar(s[0] as u32).len())
    }
}

/// Whether the lookup from line `i` on can cut its id columns out of the
/// lines it reads: the database is read by byte positions, which must fall
/// between characters. Only the lines the lookup reaches count.
pub open spec fn hwid_scan_ok(lines: Seq<String>, i: int, found: bool, vendor_id: u16, product_id: u16) -> bool
    decreases lines.len() - i,
{
    if i < 0 || i >= lines.len() {
        true
    } else {
        let l = lines[i]@;
        if has_prefix(l, "#"@) {
            hwid_scan_ok(lines, i + 1, found, vendor_id, product_id)
        } else if found && has_prefix(l, "\t"@) && byte_len(l) > 5 {
            boundary_at(l, 5) && (id_column(l, 1) == Some(product_id as nat)
                || hwid_scan_ok(lines, i + 1, found, vendor_id, product_id))
        } else if found {
            true
        } else if byte_len(l) > 4 {
            boundary_at(l, 4) && hwid_scan_ok(lines, i + 1, id_column(l, 0) == Some(vendor_id as nat), vendor_id, product_id)
        } else {
            hwid_scan_ok(lines, i + 1, found, vendor_id, product_id)
        }
    }
}

pub open spec fn hwid_view(r: Option<(String, Option<String>)>) -> Option<(Seq<char>, Option<Seq<char>>)> {
    match r {
        None => None,
        Some((v, p)) => Some((v@, match p { Some(x) => Some(x@), None => None })),
    }
}

/// The number of bytes of the characters from position `i` on.
pub open spec fn suffix_bytes(s: Seq<char>, i: int) -> nat {
    encode_utf8(s.subrange(i, s.len() as int)).len()
}

fn char_width(c: char) -> (r: usize)
    ensures
        r == vstd::utf8::encode_scalar(c as u32).len(),
        1 <= r <= 4,
{
    let v = c as u32;
    if v < 0x80 { 1 } else if v < 0x800 { 2 } else if v < 0x10000 { 3 } else { 4 }
}

/// The length of the text in bytes, or `cap` if it is longer.
fn byte_len_capped(s: &str, cap: usize) -> (r: usize)
    ensures
        r as int == if byte_len(s@) < cap { byte_len(s@) as int } else { cap as int },
{
    let n = s.unicode_len();
    let mut acc: usize = 0;
    let mut i: usize = n;
    assert(s@.subrange(n as int, n as int) =~= Seq::<char>::empty());
    while i > 0
        invariant
            n == s@.len(),
            i <= n,
            acc as int == if suffix_bytes(s@, i as int) < cap { suffix_bytes(s@, i as int) as int } else { cap as int },
        decreases i,
    {
        let w = char_width(s.get_char(i - 1));
        proof {
            let t = s@.subrange(i - 1, n as int);
            assert(t.drop_first() =~= s@.subrange(i as int, n as int));
            assert(t[0] == s@[i - 1]);
        }
        acc = if acc >= cap || cap - acc <= w { cap } else { acc + w };
        i = i - 1;
    }
    assert(s@.subrange(0, n as int) =~= s@);
    acc
}

fn ascii_prefix_exec(s: &str, k: usize) -> (r: bool)
    ensures
        r == ascii_prefix(s@, k as int),
{
    let n = s.unicode_len();
    if k > n {
        return false;
    }
    let mut j: usize = 0;
    while j < k
        invariant
            n == s@.len(),
            k <= n,
            j <= k,
            forall|m: int| 0 <= m < j ==> (#[trigger] s@[m] as u32) < 128,
        decreases k - j,
    {
        if (s.get_char(j) as u32) >= 128 {
            return false;
        }
        j = j + 1;
    }
    true
}

fn id_column_exec(s: &str, start: usize) -> (r: Option<u16>)
    requires
        start <= 1,
    ensures
        r is Some <==> id_column(s@, start as int) is Some,
        r is Some ==> r->0 as nat == id_column(s@, start as int)->0,
{
    if !ascii_prefix_exec(s, start + 4) {
        return None;
    }
    match parse_unsigned_exec(s.substring_char(start, start + 4), 16, 0xffff) {
        Some(v) => Some(v as u16),
        None => None,
    }
}

fn boundary_at_exec(s: &str, n: usize) -> (r: bool)
    ensures
        r == boundary_at(s@, n as int),
{
    let len = s.unicode_len();
    let mut j: usize = 0;
    let mut rem: usize = n;
    assert(s@.subrange(0, len as int) =~= s@);
    while rem > 0 && j < len
        invariant
            j <= len,
            len == s@.len(),
            boundary_at(s@, n as int) == boundary_at(s@.subrange(j as int, len as int), rem as int),
        decreases len - j,
    {
        let w = char_width(s.get_char(j));
        proof {
            let t = s@.subrange(j as int, len as int);
            assert(t.drop_first() =~= s@.subrange(j + 1, len as int));
            assert(t[0] == s@[j as int]);
            assert(boundary_at(t, rem as int) == boundary_at(t.drop_first(), rem - w));
            if w > rem {
                assert(!boundary_at(t.drop_first(), rem - w));
            }
        }
        if w > rem {
            return false;
        }
        rem = rem - w;
        j = j + 1;
    }
    rem == 0
}

/// Whether `hwid_resolve_usb` can read these lines for this id: every id
/// column it cuts out of the lines it reaches starts and ends between
/// characters.
pub fn hwid_readable(lines: &Vec<String>, vendor_id: u16, product_id: u16) -> (r: bool)
    ensures
        r == hwid_scan_ok(lines@, 0, false, vendor_id, product_id),
{
    let mut found = false;
    let mut i: usize = 0;
    while i < lines.len()
        invariant
            i <= lines@.len(),
            hwid_scan_ok(lines@, i as int, found, vendor_id, product_id)
                == hwid_scan_ok(lines@, 0, false, vendor_id, product_id),
        decreases lines@.len() - i,
    {
        proof { reveal_strlit("#"); reveal_strlit("\t"); }
        let line = lines[i].as_str();
        let blen = byte_len_capped(line, 6);
        if starts_with(line, "#") {
        } else if found && starts_with(line, "\t") && blen > 5 {
            if !boundary_at_exec(line, 5) {
                return false;
            }
            match id_column_exec(line, 1) {
                Some(p) if p == product_id => return true,
                _ => {},
            }
        } else if found {
            return true;
        } else if blen > 4 {
            if !boundary_at_exec(line, 4) {
                return false;
            }
            match id_column_exec(line, 0) {
                Some(v) if v == vendor_id => found = true,
                _ => {},
            }
        }
        i = i + 1;
    }
    true
}

/// Looks up the vendor and product name of a USB id in the lines of the
/// hardware database: `None` if the vendor is unknown, the vendor name
/// alone if it lists no such product.
pub fn hwid_resolve_usb(lines: &Vec<String>, vendor_id: u16, product_id: u16) -> (r: Option<(String, Option<String>)>)
    requires
        hwid_scan_ok(lines@, 0, false, vendor_id, product_id),
    ensures
        hwid_view(r) == hwid_scan(lines@, 0, None, vendor_id, product_id),
{
    let mut vendor: Option<String> = None;
    let mut i: usize = 0;
    while i < lines.len()
        invariant
            i <= lines@.len(),
            hwid_scan(lines@, i as int, crate::pci::opt_view(vendor), vendor_id, product_id)
                == hwid_scan(lines@, 0, None, vendor_id, product_id),
        decreases lines@.len() - i,
    {
        proof { reveal_strlit("#"); reveal_strlit("\t"); }
        let line = lines[i].as_str();
        let blen = byte_len_capped(line, 6);
        if starts_with(line, "#") {
        } else if vendor.is_some() && starts_with(line, "\t") && blen > 5 {
            match id_column_exec(line, 1) {
                Some(p) if p == product_id => {
                    let n = line.unicode_len();
                    let name = trim(line.substring_char(5, n));
                    let v = vendor.unwrap();
                    return Some((v, Some(name)));
                },
                _ => {},
            }
        } else if vendor.is_some() {
            return Some((vendor.unwrap(), None));
        } else if blen > 4 {
            match id_column_exec(line, 0) {
                Some(v) if v == vendor_id => {
                    let n = line.unicode_len();
                    vendor = Some(trim(line.substring_char(4, n)));
                },
                _ => {},
            }
        }
        i = i + 1;
    }
    None
}


/// The lookup from a line on depends only on the lines from there on.
proof fn lemma_hwid_scan_suffix(a: Seq<String>, i: int, b: Seq<String>, j: int, vendor: Option<Seq<char>>,
    vendor_id: u16, product_id: u16)
    requires
        0 <= i <= a.len(),
        0 <= j <= b.len(),
        a.subrange(i, a.len() as int) == b.subrange(j, b.len() as int),
    ensures
        hwid_scan(a, i, vendor, vendor_id, product_id) == hwid_scan(b, j, vendor, vendor_id, product_id),
    decreases a.len() - i,
{
    assert(a.len() - i == a.subrange(i, a.len() as int).len());
    if i < a.len() {
        assert(a[i] == a.subrange(i, a.len() as int)[0]);
        assert(b[j] == b.subrange(j, b.len() as int)[0]);
        let l = a[i]@;
        let v2 = if vendor is None && byte_len(l) > 4 && id_column(l, 0) == Some(vendor_id as nat) {
            Some(spec_trim(l.subrange(4, l.len() as int)))
        } else {
            vendor
        };
        assert(a.subrange(i + 1, a.len() as int) =~= a.subrange(i, a.len() as int).drop_first());
        assert(b.subrange(j + 1, b.len() as int) =~= b.subrange(j, b.len() as int).drop_first());
        lemma_hwid_scan_suffix(a, i + 1, b, j + 1, vendor, vendor_id, product_id);
        lemma_hwid_scan_suffix(a, i + 1, b, j + 1, v2, vendor_id, product_id);
    }
}

/// Comment lines never change a lookup: inserting one anywhere in the
/// database gives the same answer.
pub proof fn law_hwid_comments_ignored(lines: Seq<String>, k: int, comment: String, vendor_id: u16, product_id: u16)
    requires
        0 <= k <= lines.len(),
        has_prefix(comment@, "#"@),
    ensures
        hwid_scan(lines.insert(k, comment), 0, None, vendor_id, product_id)
            == hwid_scan(lines, 0, None, vendor_id, product_id),
{
    lemma_hwid_comment_from(lines, k, comment, 0, None, vendor_id, product_id);
}

proof fn lemma_hwid_comment_from(lines: Seq<String>, k: int, comment: String, i: int, vendor: Option<Seq<char>>,
    vendor_id: u16, product_id: u16)
    requires
        0 <= i <= k <= lines.len(),
        has_prefix(comment@, "#"@),
    ensures
        hwid_scan(lines.insert(k, comment), i, vendor, vendor_id, product_id)
            == hwid_scan(lines, i, vendor, vendor_id, product_id),
    decreases k - i,
{
    let ins = lines.insert(k, comment);
    if i == k {
        assert(ins[k] == comment);
        assert(ins.subrange(k + 1, ins.len() as int) =~= lines.subrange(k, lines.len() as int));
        lemma_hwid_scan_suffix(ins, k + 1, lines, k, vendor, vendor_id, product_id);
    } else {
        assert(ins[i] == lines[i]);
        let l = lines[i]@;
        let v2 = if vendor is None && byte_len(l) > 4 && id_column(l, 0) == Some(vendor_id as nat) {
            Some(spec_trim(l.subrange(4, l.len() as int)))
        } else {
            vendor
        };
        lemma_hwid_comment_from(lines, k, comment, i + 1, vendor, vendor_id, product_id);
        lemma_hwid_comment_from(lines, k, comment, i + 1, v2, vendor_id, product_id);
    }
}

} // verus!
