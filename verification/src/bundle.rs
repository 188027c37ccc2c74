//! Where an asset bundle keeps the revisions of its assets that were
//! modified: the `<bundle id>.modified` directory beside the bundles, and the
//! `<stem>.rev<n>.<ext>` file names inside it.

use vstd::prelude::*;
use crate::path::{
    extension, file_name, file_stem, last_dot, lemma_same_file_name_same_path,
    lemma_segment_start_after_separator, path_key,
    lemma_segment_start_bounds, lemma_segment_start_no_separator, lemma_trim_idempotent, name_stem,
    parent_text, path_extension, path_file_stem, path_with_file_name, push_component,
    segment_start, trim_trailing, with_file_name,
};
use crate::text::{
    all_digits, decimal_text, digit_char, is_digit, lemma_decimal_text, parse_u32, parse_u32_spec,
    u32_to_decimal,
};

verus! {

/// The identifier of an asset bundle (a UUID, held as its 128-bit value).
#[derive(Clone, Copy, Debug, PartialEq, Eq, Hash, PartialOrd, Ord, Structural)]
pub struct BundleId(pub u128);

impl BundleId {
    pub fn new(value: u128) -> (id: BundleId)
        ensures
            id.0 == value,
    {
        BundleId(value)
    }
}

/// The lowercase hexadecimal digit of `d` (for `d < 16`).
pub open spec fn hex_char(d: nat) -> char {
    if d < 10 {
        digit_char(d)
    } else if d == 10 {
        'a'
    } else if d == 11 {
        'b'
    } else if d == 12 {
        'c'
    } else if d == 13 {
        'd'
    } else if d == 14 {
        'e'
    } else {
        'f'
    }
}

/// The last `n` hexadecimal digits of `v`, most significant first.
pub open spec fn hex_digits(v: nat, n: nat) -> Seq<char>
    decreases n,
{
    if n == 0 {
        Seq::empty()
    } else {
        hex_digits(v / 16, (n - 1) as nat).push(hex_char(v % 16))
    }
}

/// The hyphenated lowercase text of a UUID: its 32 hexadecimal digits, most
/// significant first, grouped 8-4-4-4-12.
pub open spec fn uuid_text(v: u128) -> Seq<char> {
    let h = hex_digits(v as nat, 32);
    h.subrange(0, 8) + seq!['-'] + h.subrange(8, 12) + seq!['-'] + h.subrange(12, 16) + seq!['-']
        + h.subrange(16, 20) + seq!['-'] + h.subrange(20, 32)
}

/// Formats a UUID given by its 128-bit value.
///
/// Calls `uuid::Uuid::from_u128(value).to_string()`; the contract claims that
/// the text is the hyphenated lowercase form (`Display` goes through
/// `LowerHex`, which writes the 16 big-endian bytes as 32 lowercase hex digits
/// grouped 8-4-4-4-12).
#[verifier::external_body]
pub(crate) fn uuid_hyphenated(value: u128) -> (s: String)
    ensures
        s@ == uuid_text(value),
{
    uuid::Uuid::from_u128(value).to_string()
}

/// Sixteen to the power `n`: how many values `n` hexadecimal digits tell
/// apart.
pub open spec fn hex_span(n: nat) -> nat
    decreases n,
{
    if n == 0 {
        1
    } else {
        16 * hex_span((n - 1) as nat)
    }
}

/// Two hexadecimal digits that are written alike have the same value.
proof fn lemma_hex_char_injective(a: nat, b: nat)
    requires
        a < 16,
        b < 16,
        hex_char(a) == hex_char(b),
    ensures
        a == b,
{
}

/// `hex_digits(v, n)` has `n` digits.
proof fn lemma_hex_digits_len(v: nat, n: nat)
    ensures
        hex_digits(v, n).len() == n,
    decreases n,
{
    if n > 0 {
        lemma_hex_digits_len(v / 16, (n - 1) as nat);
    }
}

/// Two values below `16^n` with the same `n` hexadecimal digits are equal.
proof fn lemma_hex_digits_injective(v: nat, w: nat, n: nat)
    requires
        v < hex_span(n),
        w < hex_span(n),
        hex_digits(v, n) == hex_digits(w, n),
    ensures
        v == w,
    decreases n,
{
    if n > 0 {
        let m = (n - 1) as nat;
        let sv = hex_digits(v, n);
        let sw = hex_digits(w, n);
        lemma_hex_digits_len(v / 16, m);
        lemma_hex_digits_len(w / 16, m);
        assert(hex_digits(v / 16, m) =~= sv.drop_last());
        assert(hex_digits(w / 16, m) =~= sw.drop_last());
        assert(sv.last() == hex_char(v % 16));
        assert(sw.last() == hex_char(w % 16));
        lemma_hex_char_injective(v % 16, w % 16);
        let p = hex_span(m);
        assert(v / 16 < p) by (nonlinear_arith)
            requires
                v < 16 * p,
        ;
        assert(w / 16 < p) by (nonlinear_arith)
            requires
                w < 16 * p,
        ;
        lemma_hex_digits_injective(v / 16, w / 16, m);
    }
}

/// The text of a UUID is 36 characters long, and its 32 digits are the
/// text without its four hyphens.
proof fn lemma_uuid_text_digits(v: u128)
    ensures
        uuid_text(v).len() == 36,
        hex_digits(v as nat, 32) == ({
            let t = uuid_text(v);
            t.subrange(0, 8) + t.subrange(9, 13) + t.subrange(14, 18) + t.subrange(19, 23)
                + t.subrange(24, 36)
        }),
{
    let h = hex_digits(v as nat, 32);
    lemma_hex_digits_len(v as nat, 32);
    let t = uuid_text(v);
    assert(t.len() == 36);
    assert(h =~= t.subrange(0, 8) + t.subrange(9, 13) + t.subrange(14, 18) + t.subrange(19, 23)
        + t.subrange(24, 36));
}

/// Different UUIDs are written differently: the hyphenated text of a UUID
/// determines the UUID.
pub proof fn lemma_uuid_text_injective(a: u128, b: u128)
    ensures
        (uuid_text(a) == uuid_text(b)) == (a == b),
{
    if uuid_text(a) == uuid_text(b) {
        lemma_uuid_text_digits(a);
        lemma_uuid_text_digits(b);
        assert(hex_span(32) == 0x1_0000_0000_0000_0000_0000_0000_0000_0000) by {
            reveal_with_fuel(hex_span, 33);
        }
        lemma_hex_digits_injective(a as nat, b as nat, 32);
    }
}

/// The name of the directory that holds the modified assets of a bundle.
pub open spec fn modified_dir_name(bundle_id: BundleId) -> Seq<char> {
    uuid_text(bundle_id.0) + seq!['.', 'm', 'o', 'd', 'i', 'f', 'i', 'e', 'd']
}

/// `assets_root` joined with `<bundle id>.modified`.
pub fn modified_bundle_absolute_path(assets_root: &str, bundle_id: &BundleId) -> (r: String)
    ensures
        r@ == push_component(assets_root@, modified_dir_name(*bundle_id)),
{
    let name = uuid_hyphenated(bundle_id.0);
    proof { reveal_strlit(".modified"); }
    let name = name.concat(".modified");
    let root = String::from_str(assets_root);
    let len = assets_root.unicode_len();
    if len > 0 && assets_root.get_char(len - 1) != '/' {
        proof { reveal_strlit("/"); }
        root.concat("/").concat(name.as_str())
    } else {
        root.concat(name.as_str())
    }
}

/// Different bundles keep their modified assets in different directories
/// under the same root.
pub proof fn lemma_modified_dirs_of_bundles_differ(root: Seq<char>, b1: BundleId, b2: BundleId)
    ensures
        (push_component(root, modified_dir_name(b1)) == push_component(root, modified_dir_name(b2)))
            == (b1 == b2),
{
    let p1 = push_component(root, modified_dir_name(b1));
    let p2 = push_component(root, modified_dir_name(b2));
    if p1 == p2 {
        lemma_uuid_text_digits(b1.0);
        lemma_uuid_text_digits(b2.0);
        let k: int = if root.len() > 0 && root.last() != '/' { root.len() + 1int } else { root.len() as int };
        assert(p1.subrange(k, k + 36) =~= uuid_text(b1.0));
        assert(p2.subrange(k, k + 36) =~= uuid_text(b2.0));
        lemma_uuid_text_injective(b1.0, b2.0);
    }
}

/// The text `.rev`.
pub open spec fn rev_marker() -> Seq<char> {
    seq!['.', 'r', 'e', 'v']
}

/// `s` has the marker `.rev` at index `i`.
pub open spec fn rev_at(s: Seq<char>, i: int) -> bool {
    0 <= i && i + 4 <= s.len() && s.subrange(i, i + 4) == rev_marker()
}

/// `s` holds `.rev` exactly once, at index `i`.
pub open spec fn single_rev_at(s: Seq<char>, i: int) -> bool {
    rev_at(s, i) && forall|j: int| #[trigger] rev_at(s, j) ==> j == i
}

/// `s.split(".rev")` when it gives exactly two parts: the text before and
/// after the one `.rev` of `s`.
pub open spec fn split_single_rev(s: Seq<char>) -> Option<(Seq<char>, Seq<char>)> {
    if exists|i: int| single_rev_at(s, i) {
        let i = choose|i: int| single_rev_at(s, i);
        Some((s.subrange(0, i), s.subrange(i + 4, s.len() as int)))
    } else {
        None
    }
}

/// The index of the first `.` of `s`, or its length when it has none.
pub open spec fn first_dot(s: Seq<char>) -> int
    decreases s.len(),
{
    if s.len() == 0 {
        0
    } else if s[0] == '.' {
        0
    } else {
        1 + first_dot(s.drop_first())
    }
}

/// The first piece of `s.split('.')`.
pub open spec fn before_first_dot(s: Seq<char>) -> Seq<char> {
    s.subrange(0, first_dot(s))
}

/// The revision that a modified asset's path names: the number after the
/// one `.rev` of the file stem, up to the next `.`.
pub open spec fn revision_of_path(p: Seq<char>) -> Option<u32> {
    match file_stem(p) {
        None => None,
        Some(stem) => match split_single_rev(stem) {
            None => None,
            Some(parts) => parse_u32_spec(before_first_dot(parts.1)),
        },
    }
}

/// `Option::unwrap_or_default` on a text.
pub open spec fn or_empty(t: Option<Seq<char>>) -> Seq<char> {
    match t {
        Some(v) => v,
        None => Seq::empty(),
    }
}

/// The path of the asset that a modified asset's path is a revision of:
/// the stem before `.rev`, then `.` and the extension, in the same directory.
pub open spec fn original_path_of(p: Seq<char>) -> Option<Seq<char>> {
    match file_stem(p) {
        None => None,
        Some(stem) => match split_single_rev(stem) {
            None => None,
            Some(parts) => Some(
                with_file_name(p, parts.0 + seq!['.'] + or_empty(extension(p))),
            ),
        },
    }
}

/// The file name under which revision `revision` of an asset is written.
pub open spec fn revision_file_name(p: Seq<char>, revision: u32) -> Seq<char> {
    or_empty(file_stem(p)) + rev_marker() + decimal_text(revision as nat) + seq!['.'] + or_empty(
        extension(p),
    )
}

/// The path under which revision `revision` of the asset at `p` is written.
pub open spec fn revision_path(p: Seq<char>, revision: u32) -> Seq<char> {
    with_file_name(p, revision_file_name(p, revision))
}

proof fn lemma_rev_at_chars(s: Seq<char>, i: int)
    requires
        0 <= i,
        i + 4 <= s.len(),
    ensures
        rev_at(s, i) <==> (s[i] == '.' && s[i + 1] == 'r' && s[i + 2] == 'e' && s[i + 3] == 'v'),
{
    if s[i] == '.' && s[i + 1] == 'r' && s[i + 2] == 'e' && s[i + 3] == 'v' {
        assert(s.subrange(i, i + 4) =~= rev_marker());
    }
    if rev_at(s, i) {
        assert(s.subrange(i, i + 4)[0] == s[i]);
        assert(s.subrange(i, i + 4)[1] == s[i + 1]);
        assert(s.subrange(i, i + 4)[2] == s[i + 2]);
        assert(s.subrange(i, i + 4)[3] == s[i + 3]);
    }
}

/// Finds the one `.rev` of `s`, if `s` holds exactly one.
fn find_single_rev(s: &str) -> (r: Option<usize>)
    ensures
        match r {
            Some(i) => single_rev_at(s@, i as int),
            None => !(exists|i: int| single_rev_at(s@, i)),
        },
{
    let len = s.unicode_len();
    if len < 4 {
        assert forall|i: int| !single_rev_at(s@, i) by {}
        return None;
    }
    let mut found: Option<usize> = None;
    let mut i: usize = 0;
    while i < len - 3
        invariant
            len == s@.len(),
            len >= 4,
            i <= len - 3,
            match found {
                Some(f) => f < i && rev_at(s@, f as int) && forall|j: int|
                    0 <= j < i && #[trigger] rev_at(s@, j) ==> j == f,
                None => forall|j: int| 0 <= j < i ==> !#[trigger] rev_at(s@, j),
            },
        decreases len - i,
    {
        let hit = s.get_char(i) == '.' && s.get_char(i + 1) == 'r' && s.get_char(i + 2) == 'e'
            && s.get_char(i + 3) == 'v';
        proof {
            lemma_rev_at_chars(s@, i as int);
        }
        if hit {
            match found {
                Some(f) => {
                    assert(rev_at(s@, i as int));
                    assert forall|k: int| !single_rev_at(s@, k) by {
                        if single_rev_at(s@, k) {
                            assert(rev_at(s@, f as int));
                            assert(rev_at(s@, i as int));
                        }
                    }
                    return None;
                },
                None => {
                    found = Some(i);
                },
            }
        }
        i = i + 1;
    }
    match found {
        Some(f) => {
            assert forall|j: int| #[trigger] rev_at(s@, j) implies j == f by {
                if j >= i {
                    assert(j + 4 > len);
                }
            }
            Some(f)
        },
        None => {
            assert forall|k: int| !single_rev_at(s@, k) by {
                if rev_at(s@, k) {
                    assert(k < i);
                }
            }
            None
        },
    }
}

/// Splits `s` at its one `.rev`, as `s.split(".rev")` does when that gives
/// exactly two parts.
fn split_at_single_rev(s: &str) -> (r: Option<(&str, &str)>)
    ensures
        match r {
            Some(parts) => split_single_rev(s@) == Some((parts.0@, parts.1@)),
            None => split_single_rev(s@) is None,
        },
{
    match find_single_rev(s) {
        Some(i) => {
            let len = s.unicode_len();
            proof {
                let c = choose|k: int| single_rev_at(s@, k);
                assert(single_rev_at(s@, c));
                assert(c == i);
            }
            Some((s.substring_char(0, i), s.substring_char(i + 4, len)))
        },
        None => None,
    }
}

/// The first piece of `s.split('.')`.
fn first_dot_piece(s: &str) -> (r: &str)
    ensures
        r@ == before_first_dot(s@),
{
    let len = s.unicode_len();
    let mut i: usize = 0;
    assert(s@.subrange(0, len as int) =~= s@);
    while i < len
        invariant
            i <= len == s@.len(),
            first_dot(s@) == i + first_dot(s@.subrange(i as int, len as int)),
        decreases len - i,
    {
        let ghost rest = s@.subrange(i as int, len as int);
        if s.get_char(i) == '.' {
            assert(rest[0] == '.');
            return s.substring_char(0, i);
        }
        proof {
            assert(rest.drop_first() =~= s@.subrange(i + 1, len as int));
        }
        i = i + 1;
    }
    assert(s@.subrange(len as int, len as int).len() == 0);
    assert(s@.subrange(0, len as int) =~= s@);
    s
}

/// The revision number in the file name of a modified asset, as
/// `<stem>.rev<n>.<ext>` writes it; `None` when the stem does not hold
/// `.rev` exactly once or no number follows it.
pub fn parse_revision_from_path(path: &str) -> (r: Option<u32>)
    ensures
        r == revision_of_path(path@),
{
    let stem = match path_file_stem(path) {
        Some(stem) => stem,
        None => return None,
    };
    let (_, after) = match split_at_single_rev(stem) {
        Some(parts) => parts,
        None => return None,
    };
    parse_u32(first_dot_piece(after))
}

/// The path of the asset that the modified asset at `modified_path` is a
/// revision of; `None` when its stem does not hold `.rev` exactly once.
pub fn restore_original_path(modified_path: &str) -> (r: Option<String>)
    ensures
        match r {
            Some(p) => original_path_of(modified_path@) == Some(p@),
            None => original_path_of(modified_path@) is None,
        },
{
    let stem = match path_file_stem(modified_path) {
        Some(stem) => stem,
        None => return None,
    };
    let (before, _) = match split_at_single_rev(stem) {
        Some(parts) => parts,
        None => return None,
    };
    let ext = match path_extension(modified_path) {
        Some(e) => e,
        None => {
            proof { reveal_strlit(""); }
            ""
        },
    };
    proof { reveal_strlit("."); }
    let name = String::from_str(before).concat(".").concat(ext);
    Some(path_with_file_name(modified_path, name.as_str()))
}

/// The path under which revision `revision` of the asset at
/// `asset_relative_path` is written: `<stem>.rev<revision>.<ext>` in the same
/// directory.
pub fn modified_asset_relative_path(asset_relative_path: &str, revision: u32) -> (r: String)
    ensures
        r@ == revision_path(asset_relative_path@, revision),
{
    proof {
        reveal_strlit("");
        reveal_strlit(".rev");
        reveal_strlit(".");
    }
    let ext = match path_extension(asset_relative_path) {
        Some(e) => e,
        None => "",
    };
    let stem = match path_file_stem(asset_relative_path) {
        Some(s) => s,
        None => "",
    };
    let number = u32_to_decimal(revision);
    let name = String::from_str(stem).concat(".rev").concat(number.as_str()).concat(".").concat(
        ext,
    );
    path_with_file_name(asset_relative_path, name.as_str())
}


/// A text without the given character.
pub open spec fn lacks(s: Seq<char>, c: char) -> bool {
    forall|i: int| 0 <= i < s.len() ==> s[i] != c
}

/// The file name of a path holds no separator.
proof fn lemma_file_name_no_separator(p: Seq<char>)
    requires
        file_name(p) is Some,
    ensures
        lacks(file_name(p).unwrap(), '/'),
{
    let t = trim_trailing(p);
    lemma_segment_start_bounds(t);
    let seg = file_name(p).unwrap();
    assert forall|i: int| 0 <= i < seg.len() implies seg[i] != '/' by {
        assert(seg[i] == t[segment_start(t) + i]);
    }
}

/// Pushing a plain name onto a base gives a path whose file name is that
/// name and whose parent is the trimmed base.
pub proof fn lemma_push_file_name(b: Seq<char>, n: Seq<char>)
    requires
        n.len() > 0,
        lacks(n, '/'),
        n != seq!['.'],
        n != seq!['.', '.'],
    ensures
        trim_trailing(push_component(b, n)) == push_component(b, n),
        file_name(push_component(b, n)) == Some(n),
        parent_text(push_component(b, n)) == trim_trailing(b),
{
    let q = push_component(b, n);
    let a = if b.len() > 0 && b.last() != '/' { b + seq!['/'] } else { b };
    assert(q =~= a + n);
    // the text is already trimmed
    assert(q.last() == n.last());
    if n.len() >= 2 {
        assert(q[q.len() - 2] == n[n.len() - 2]);
    } else {
        assert(n =~= seq![n[0]]);
        assert(n[0] != '.');
    }
    assert(trim_trailing(q) == q);
    if a.len() > 0 {
        lemma_segment_start_after_separator(a, n);
    } else {
        assert(q =~= n);
        lemma_segment_start_no_separator(n);
    }
    assert(segment_start(q) == a.len());
    assert(q.subrange(a.len() as int, q.len() as int) =~= n);
    assert(q.subrange(0, a.len() as int) =~= a);
    if b.len() > 0 && b.last() != '/' {
        assert(a.drop_last() =~= b);
        assert(trim_trailing(a) == trim_trailing(b));
    }
}

/// The last `.` of `a + "." + e`, where `e` holds no `.`, is the one after `a`.
proof fn lemma_last_dot_of_join(a: Seq<char>, e: Seq<char>)
    requires
        lacks(e, '.'),
    ensures
        last_dot(a + seq!['.'] + e) == a.len(),
    decreases e.len(),
{
    let s = a + seq!['.'] + e;
    if e.len() == 0 {
        assert(s.last() == '.');
    } else {
        assert(s.drop_last() =~= a + seq!['.'] + e.drop_last());
        lemma_last_dot_of_join(a, e.drop_last());
    }
}

pub proof fn lemma_last_dot_bounds(name: Seq<char>)
    ensures
        -1 <= last_dot(name) < name.len(),
        last_dot(name) >= 0 ==> name[last_dot(name)] == '.',
        forall|i: int| last_dot(name) < i < name.len() ==> name[i] != '.',
    decreases name.len(),
{
    if name.len() > 0 && name.last() != '.' {
        lemma_last_dot_bounds(name.drop_last());
        let d = last_dot(name.drop_last());
        if d >= 0 {
            assert(name[d] == name.drop_last()[d]);
        }
        assert forall|i: int| last_dot(name) < i < name.len() implies name[i] != '.' by {
            if i < name.len() - 1 {
                assert(name[i] == name.drop_last()[i]);
            }
        }
    }
}

/// The stem and extension of a file name hold no separator, and the
/// extension holds no `.`.
proof fn lemma_stem_extension_parts(p: Seq<char>)
    ensures
        lacks(or_empty(file_stem(p)), '/'),
        lacks(or_empty(extension(p)), '/'),
        lacks(or_empty(extension(p)), '.'),
{
    if file_name(p) is Some {
        lemma_file_name_no_separator(p);
        let name = file_name(p).unwrap();
        lemma_last_dot_bounds(name);
        let d = last_dot(name);
        if d > 0 {
            let st = name.subrange(0, d);
            let ex = name.subrange(d + 1, name.len() as int);
            assert forall|i: int| 0 <= i < st.len() implies st[i] != '/' by {
                assert(st[i] == name[i]);
            }
            assert forall|i: int| 0 <= i < ex.len() implies ex[i] != '/' && ex[i] != '.' by {
                assert(ex[i] == name[d + 1 + i]);
            }
        }
    }
}

/// The file name of a revision path is the revision file name.
pub proof fn lemma_revision_path_file_name(p: Seq<char>, revision: u32)
    ensures
        file_name(revision_path(p, revision)) == Some(revision_file_name(p, revision)),
        parent_text(revision_path(p, revision)) == trim_trailing(
            if file_name(p) is Some { parent_text(p) } else { p },
        ),
{
    let n = revision_file_name(p, revision);
    let stem = or_empty(file_stem(p));
    let ext = or_empty(extension(p));
    let digits = decimal_text(revision as nat);
    lemma_stem_extension_parts(p);
    lemma_decimal_text(revision as nat);
    assert(n =~= stem + rev_marker() + digits + seq!['.'] + ext);
    assert(lacks(n, '/')) by {
        assert forall|i: int| 0 <= i < n.len() implies n[i] != '/' by {
            if i < stem.len() {
                assert(n[i] == stem[i]);
            } else if i < stem.len() + 4 {
            } else if i < stem.len() + 4 + digits.len() {
                assert(n[i] == digits[i - stem.len() - 4]);
                assert(is_digit(digits[i - stem.len() - 4]));
            } else if i == stem.len() + 4 + digits.len() {
            } else {
                assert(n[i] == ext[i - stem.len() - 5 - digits.len()]);
            }
        }
    }
    assert(n.len() >= 6);
    if file_name(p) is Some {
        lemma_push_file_name(parent_text(p), n);
    } else {
        lemma_push_file_name(p, n);
    }
}

/// A revision written under `revision_path` is read back from that path:
/// when the asset's stem does not itself hold `.rev`, the revision parsed
/// from the written path is the revision that was written.
pub proof fn lemma_revision_roundtrip(p: Seq<char>, revision: u32)
    requires
        !(exists|i: int| rev_at(or_empty(file_stem(p)), i)),
    ensures
        revision_of_path(revision_path(p, revision)) == Some(revision),
{
    let stem = or_empty(file_stem(p));
    let ext = or_empty(extension(p));
    let digits = decimal_text(revision as nat);
    let n = revision_file_name(p, revision);
    let q = revision_path(p, revision);
    lemma_revision_path_file_name(p, revision);
    lemma_stem_extension_parts(p);
    lemma_decimal_text(revision as nat);
    let head = stem + rev_marker() + digits;
    assert(n =~= head + seq!['.'] + ext);
    lemma_last_dot_of_join(head, ext);
    assert(file_stem(q) == Some(name_stem(n)));
    assert(n.subrange(0, head.len() as int) =~= head);
    assert(name_stem(n) == head);
    lemma_single_rev_after_stem(stem, digits);
    let parts = split_single_rev(head).unwrap();
    assert(parts.1 =~= digits);
    lemma_before_first_dot_of_digits(digits);
    assert(digits[0] != '+') by {
        assert(is_digit(digits[0]));
    }
}

/// `stem + ".rev" + digits` holds `.rev` once, right after the stem, when the
/// stem holds none.
proof fn lemma_single_rev_after_stem(stem: Seq<char>, digits: Seq<char>)
    requires
        !(exists|i: int| rev_at(stem, i)),
        all_digits(digits),
    ensures
        split_single_rev(stem + rev_marker() + digits) == Some((stem, digits)),
{
    let s = stem + rev_marker() + digits;
    let k = stem.len() as int;
    assert(s.subrange(k, k + 4) =~= rev_marker());
    assert forall|j: int| #[trigger] rev_at(s, j) implies j == k by {
        if j < k {
            lemma_no_rev_before_marker(stem, digits, j);
        } else if j > k {
            lemma_no_rev_after_marker(stem, digits, j);
        }
    }
    assert(single_rev_at(s, k));
    let c = choose|i: int| single_rev_at(s, i);
    assert(c == k);
    assert(s.subrange(0, k) =~= stem);
    assert(s.subrange(k + 4, s.len() as int) =~= digits);
}

/// In `stem + ".rev" + digits`, no `.rev` starts inside the stem when the
/// stem holds none: one there would lie in the stem or cover the `.` that
/// starts the marker.
proof fn lemma_no_rev_before_marker(stem: Seq<char>, digits: Seq<char>, j: int)
    requires
        !(exists|i: int| rev_at(stem, i)),
        j < stem.len(),
    ensures
        !rev_at(stem + rev_marker() + digits, j),
{
    let s = stem + rev_marker() + digits;
    let k = stem.len() as int;
    if rev_at(s, j) {
        if j + 4 <= k {
            assert(s.subrange(j, j + 4) =~= stem.subrange(j, j + 4));
            assert(rev_at(stem, j));
        } else {
            assert(s.subrange(j, j + 4)[k - j] == s[k]);
            assert(rev_marker()[k - j] != '.');
        }
    }
}

/// In `stem + ".rev" + digits`, no `.rev` starts after the start of the
/// marker: its first character would be a letter of `rev` or a digit.
proof fn lemma_no_rev_after_marker(stem: Seq<char>, digits: Seq<char>, j: int)
    requires
        all_digits(digits),
        j > stem.len(),
    ensures
        !rev_at(stem + rev_marker() + digits, j),
{
    let s = stem + rev_marker() + digits;
    let k = stem.len() as int;
    if rev_at(s, j) {
        assert(s.subrange(j, j + 4)[0] == s[j]);
        if j < k + 4 {
            assert(s[j] == rev_marker()[j - k]);
        } else {
            assert(s[j] == digits[j - k - 4]);
            assert(is_digit(digits[j - k - 4]));
        }
    }
}

/// A digit string is its own first piece, and parses to its value.
proof fn lemma_before_first_dot_of_digits(digits: Seq<char>)
    requires
        all_digits(digits),
    ensures
        first_dot(digits) == digits.len(),
        before_first_dot(digits) == digits,
    decreases digits.len(),
{
    if digits.len() > 0 {
        assert(is_digit(digits[0]));
        let rest = digits.drop_first();
        assert(all_digits(rest)) by {
            assert forall|i: int| 0 <= i < rest.len() implies is_digit(#[trigger] rest[i]) by {
                assert(rest[i] == digits[i + 1]);
            }
        }
        lemma_before_first_dot_of_digits(rest);
    }
    assert(digits.subrange(0, first_dot(digits)) =~= digits);
}

/// Restoring the original path from a revision path gives back the asset's
/// path, with its file name replaced by itself (the path itself when it is
/// written in that form, as `Path` gives it back): when the asset has an
/// extension and its stem does not hold `.rev`.
pub proof fn lemma_restore_roundtrip(p: Seq<char>, revision: u32)
    requires
        !(exists|i: int| rev_at(or_empty(file_stem(p)), i)),
        extension(p) is Some,
    ensures
        original_path_of(revision_path(p, revision)) == Some(
            with_file_name(p, file_name(p).unwrap()),
        ),
        p == with_file_name(p, file_name(p).unwrap()) ==> original_path_of(
            revision_path(p, revision),
        ) == Some(p),
        extension(revision_path(p, revision)) == extension(p),
{
    let name = file_name(p).unwrap();
    let stem = or_empty(file_stem(p));
    let ext = or_empty(extension(p));
    let digits = decimal_text(revision as nat);
    let n = revision_file_name(p, revision);
    let q = revision_path(p, revision);
    lemma_revision_path_file_name(p, revision);
    lemma_stem_extension_parts(p);
    lemma_decimal_text(revision as nat);
    let head = stem + rev_marker() + digits;
    assert(n =~= head + seq!['.'] + ext);
    lemma_last_dot_of_join(head, ext);
    assert(n.subrange(0, head.len() as int) =~= head);
    assert(n.subrange(head.len() + 1int, n.len() as int) =~= ext);
    assert(extension(q) == Some(ext));
    lemma_single_rev_after_stem(stem, digits);
    // the parent of the revision path is the parent of the asset
    lemma_trim_idempotent(trim_trailing(p).subrange(0, segment_start(trim_trailing(p))));
    assert(parent_text(q) == parent_text(p));
    // the stem, a dot and the extension make up the file name again
    let d = last_dot(name);
    lemma_last_dot_bounds(name);
    assert(name =~= name.subrange(0, d) + seq!['.'] + name.subrange(d + 1, name.len() as int));
    assert(stem + seq!['.'] + ext == name);
}

/// Restoring the original path from a revision path gives back the asset's
/// path as `Path`'s `==` sees it (the same root, leading `.` and
/// components), whatever separators it was written with: when the asset
/// has an extension and its stem does not hold `.rev`.
pub proof fn lemma_restore_gives_same_path(p: Seq<char>, revision: u32)
    requires
        !(exists|i: int| rev_at(or_empty(file_stem(p)), i)),
        extension(p) is Some,
    ensures
        original_path_of(revision_path(p, revision)) matches Some(o) && path_key(o) == path_key(p),
{
    lemma_restore_roundtrip(p, revision);
    lemma_same_file_name_same_path(p);
}

} // verus!
