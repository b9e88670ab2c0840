//! Font indexing: decoding a compiled font's character map and glyph names
//! back into an icon-name-to-codepoint mapping.

use vstd::prelude::*;

use read_fonts::tables::cmap::CmapSubtable;
use read_fonts::{FontRef, TableProvider};

use crate::error::Error;
use crate::tables::cmap_mappings_spec;

verus! {

/// A mapping from icon names to their assigned Unicode scalars.
pub type IconMap = vstd::hash_map::StringHashMap<char>;

/// Whether a byte sequence parses as a binary font container. The outcome
/// depends on the bytes alone.
pub uninterp spec fn parses_as_font(data: Seq<u8>) -> bool;

/// The character map's (platform, encoding) record list, read from the
/// font bytes; absent when the bytes have no readable character map. A
/// function of the bytes alone.
pub uninterp spec fn cmap_records_of(data: Seq<u8>) -> Option<Seq<(u16, u16)>>;

/// The five arrays of the segmented character-map subtable behind the
/// given encoding record: start codes, end codes, deltas, range offsets
/// and the glyph-index array; absent when the record is missing, its
/// subtable does not resolve, or the subtable is not the segmented form.
/// A function of the bytes and the record index alone.
pub uninterp spec fn format4_arrays_of(data: Seq<u8>, index: int) -> Option<
    (Seq<u16>, Seq<u16>, Seq<i16>, Seq<u16>, Seq<u16>),
>;

/// The glyph's name in the font's name table, read from the font bytes;
/// absent when the bytes have no readable name table or it records no
/// name for the glyph. A function of the bytes and the glyph index alone.
pub uninterp spec fn glyph_name_of(data: Seq<u8>, gid: u16) -> Option<Seq<char>>;

/// Relies on read_fonts::FontRef::new, which parses the container's table
/// directory and fails exactly on malformed container bytes.
#[verifier::external_body]
fn parse_font(data: &[u8]) -> (r: Result<(), Error>)
    ensures
        r is Ok <==> parses_as_font(data@),
        r is Err ==> r->Err_0 is FontRead,
{
    match FontRef::new(data) {
        Ok(_) => Ok(()),
        Err(e) => Err(Error::FontRead(format!("{}", e))),
    }
}

/// Relies on read_fonts::FontRef::new, TableProvider::cmap and
/// tables::cmap::Cmap::encoding_records: the character map's records as
/// plain pairs, parsed afresh from the bytes, so the result depends on
/// the bytes alone.
#[verifier::external_body]
fn cmap_records(data: &[u8]) -> (r: Option<Vec<(u16, u16)>>)
    ensures
        match r {
            Option::Some(v) => cmap_records_of(data@) == Option::Some(v@),
            Option::None => cmap_records_of(data@) is None,
        },
{
    let font = FontRef::new(data).ok()?;
    let cmap = font.cmap().ok()?;
    Some(cmap.encoding_records().iter().map(|r| (r.platform_id() as u16, r.encoding_id())).collect())
}

/// Relies on read_fonts::FontRef::new, TableProvider::cmap,
/// tables::cmap::EncodingRecord::subtable and the Cmap4 array accessors:
/// the segmented subtable's five arrays behind the indexed record, parsed
/// afresh from the bytes, so the result depends on the bytes and the
/// index alone. One match arm per subtable form tells the segmented one
/// apart.
#[verifier::external_body]
fn format4_arrays(data: &[u8], index: usize) -> (r: Option<
    (Vec<u16>, Vec<u16>, Vec<i16>, Vec<u16>, Vec<u16>),
>)
    ensures
        match r {
            Option::Some(t) => format4_arrays_of(data@, index as int) == Option::Some(
                (t.0@, t.1@, t.2@, t.3@, t.4@),
            ),
            Option::None => format4_arrays_of(data@, index as int) is None,
        },
{
    let cmap = FontRef::new(data).ok()?.cmap().ok()?;
    match cmap.encoding_records().get(index)?.subtable(cmap.offset_data()).ok()? {
        CmapSubtable::Format4(c) => Some((
            c.start_code().iter().map(|v| v.get()).collect(),
            c.end_code().iter().map(|v| v.get()).collect(),
            c.id_delta().iter().map(|v| v.get()).collect(),
            c.id_range_offsets().iter().map(|v| v.get()).collect(),
            c.glyph_id_array().iter().map(|v| v.get()).collect(),
        )),
        _ => None,
    }
}

/// Relies on read_fonts::FontRef::new, TableProvider::post and
/// tables::post::Post::glyph_name: the glyph's name, parsed afresh from
/// the bytes, so the result depends on the bytes and the glyph index
/// alone.
#[verifier::external_body]
fn glyph_name(data: &[u8], gid: u16) -> (r: Option<String>)
    ensures
        match r {
            Option::Some(s) => glyph_name_of(data@, gid) == Option::Some(s@),
            Option::None => glyph_name_of(data@, gid) is None,
        },
{
    let font = FontRef::new(data).ok()?;
    let post = font.post().ok()?;
    post.glyph_name(font_types::GlyphId16::new(gid)).map(|s| s.to_string())
}

/// Relies on char::from_u32 of std: the documentation promises `Some`
/// exactly for code points that are Unicode scalar values (not surrogates,
/// at most 0x10FFFF), holding the character with that code.
#[verifier::external_body]
fn char_from_u32(u: u32) -> (r: Option<char>)
    ensures
        r is Some <==> (u < 0xD800 || (0xE000 <= u && u <= 0x10FFFF)),
        r is Some ==> r->0 as int == u as int,
{
    char::from_u32(u)
}

/// The index of the first encoding record the decoder prefers: the symbol
/// or Unicode platform, else the Windows platform with its basic encoding.
pub open spec fn preferred_from(records: Seq<(u16, u16)>, i: int) -> Option<int>
    decreases records.len() - i,
{
    if i < 0 || i >= records.len() {
        Option::None
    } else if records[i].0 == 0 || (records[i].0 == 3 && records[i].1 == 1) {
        Option::Some(i)
    } else {
        preferred_from(records, i + 1)
    }
}

/// The preferred encoding record of a character map, if any.
pub open spec fn preferred_index(records: Seq<(u16, u16)>) -> Option<int> {
    preferred_from(records, 0)
}

/// Picks the subtable the decoder reads: the first record of the symbol or
/// Unicode platform, else the first Windows basic-encoding record.
pub fn pick_record(records: &Vec<(u16, u16)>) -> (r: Option<usize>)
    ensures
        match r {
            Option::Some(i) => preferred_index(records@) == Option::Some(i as int),
            Option::None => preferred_index(records@) is None,
        },
{
    let n = records.len();
    let mut i: usize = 0;
    while i < n
        invariant
            n == records@.len(),
            0 <= i <= n,
            preferred_index(records@) == preferred_from(records@, i as int),
        decreases n - i,
    {
        let (plat, enc) = records[i];
        if plat == 0 || (plat == 3 && enc == 1) {
            return Option::Some(i);
        }
        i = i + 1;
    }
    Option::None
}

/// A per-segment delta, reduced to its sixteen-bit wrapped value.
pub open spec fn delta16(d: i16) -> int {
    if d >= 0 {
        d as int
    } else {
        d + 65536
    }
}

/// Sixteen-bit wraparound of a sum of two values below 65536 each.
pub open spec fn wrap16(v: int) -> int {
    if v >= 65536 {
        v - 65536
    } else {
        v
    }
}

/// The glyph index a code resolves to within segment `seg` of `n`, or
/// `None` where the code is unmapped. All additions wrap modulo 65536. A
/// zero range offset maps by wrapped delta addition alone; any other
/// offset is self-relative: it counts bytes from its own slot in the
/// offsets array, so the glyph-array position is the offset in words plus
/// the code's place in its segment, minus the slots that remain after the
/// segment. Only a zero raw array entry marks a code unmapped.
pub open spec fn glyph_for(
    cp: int,
    start: int,
    d: i16,
    ro: u16,
    gids: Seq<u16>,
    seg: int,
    n: int,
) -> Option<u16> {
    if ro == 0 {
        Option::Some(wrap16(cp + delta16(d)) as u16)
    } else {
        let off = (ro as int) / 2 + (cp - start) - (n - seg);
        if 0 <= off < gids.len() {
            let raw = gids[off];
            if raw == 0 {
                Option::None
            } else {
                Option::Some(wrap16(raw + delta16(d)) as u16)
            }
        } else {
            Option::None
        }
    }
}

/// The (code, glyph index) pairs of one segment from code `cp` up to `e`,
/// codes ascending, unmapped codes skipped.
pub open spec fn seg_pairs_from(
    cp: int,
    e: int,
    start: int,
    d: i16,
    ro: u16,
    gids: Seq<u16>,
    seg: int,
    n: int,
) -> Seq<(u16, u16)>
    decreases (if cp <= e {
        e - cp + 1
    } else {
        0
    }),
{
    if cp > e {
        Seq::empty()
    } else {
        let head: Seq<(u16, u16)> = match glyph_for(cp, start, d, ro, gids, seg, n) {
            Option::Some(g) => seq![(cp as u16, g)],
            Option::None => Seq::empty(),
        };
        head + seg_pairs_from(cp + 1, e, start, d, ro, gids, seg, n)
    }
}

/// How many segments the decoder walks: as many as every per-segment array
/// can supply.
pub open spec fn seg_count_of(
    starts: Seq<u16>,
    ends: Seq<u16>,
    deltas: Seq<i16>,
    ros: Seq<u16>,
) -> int {
    let a = if starts.len() <= ends.len() {
        starts.len() as int
    } else {
        ends.len() as int
    };
    let b = if deltas.len() <= ros.len() {
        deltas.len() as int
    } else {
        ros.len() as int
    };
    if a <= b {
        a
    } else {
        b
    }
}

/// The (code, glyph index) pairs of the segments from index `i` on, in
/// segment order.
pub open spec fn pairs_from_seg(
    i: int,
    starts: Seq<u16>,
    ends: Seq<u16>,
    deltas: Seq<i16>,
    ros: Seq<u16>,
    gids: Seq<u16>,
) -> Seq<(u16, u16)>
    decreases seg_count_of(starts, ends, deltas, ros) - i,
{
    if i < 0 || i >= seg_count_of(starts, ends, deltas, ros) {
        Seq::empty()
    } else {
        seg_pairs_from(
            starts[i] as int,
            ends[i] as int,
            starts[i] as int,
            deltas[i],
            ros[i],
            gids,
            i,
            seg_count_of(starts, ends, deltas, ros),
        ) + pairs_from_seg(i + 1, starts, ends, deltas, ros, gids)
    }
}

/// Every (code, glyph index) pair of a segmented character map, in
/// ascending-segment, ascending-code order.
pub open spec fn cmap4_pairs(
    starts: Seq<u16>,
    ends: Seq<u16>,
    deltas: Seq<i16>,
    ros: Seq<u16>,
    gids: Seq<u16>,
) -> Seq<(u16, u16)> {
    pairs_from_seg(0, starts, ends, deltas, ros, gids)
}

/// Resolves one code against segment `seg` of `n`.
fn glyph_for_exec(cp: u32, start: u16, d: i16, ro: u16, gids: &Vec<u16>, seg: usize, n: usize) -> (r:
    Option<u16>)
    requires
        start as u32 <= cp <= 0xFFFF,
        seg < n,
    ensures
        r == glyph_for(cp as int, start as int, d, ro, gids@, seg as int, n as int),
{
    let du: u32 = if d >= 0 {
        d as u32
    } else {
        (d as i32 + 65536) as u32
    };
    if ro == 0 {
        let sum: u32 = cp + du;
        let g: u32 = if sum >= 65536 {
            sum - 65536
        } else {
            sum
        };
        Option::Some(g as u16)
    } else {
        let off: i128 = (ro as i128) / 2 + (cp - start as u32) as i128 - (n - seg) as i128;
        if 0 <= off && off < gids.len() as i128 {
            let raw = gids[off as usize];
            if raw == 0 {
                Option::None
            } else {
                let sum: u32 = raw as u32 + du;
                let g: u32 = if sum >= 65536 {
                    sum - 65536
                } else {
                    sum
                };
                Option::Some(g as u16)
            }
        } else {
            Option::None
        }
    }
}

/// Decodes a segmented character map into its (code, glyph index) pairs.
///
/// Each segment's codes are walked in ascending order; a segment whose
/// range offset is zero maps by wrapped delta addition, any other segment
/// looks the code up in the glyph-index array by self-relative addressing,
/// skipping codes whose raw entry is zero or whose position falls outside
/// the array. The walk covers as many segments as every per-segment array
/// can supply, so arrays of unequal length yield what they jointly hold.
pub fn decode_cmap4(
    starts: &Vec<u16>,
    ends: &Vec<u16>,
    deltas: &Vec<i16>,
    ros: &Vec<u16>,
    gids: &Vec<u16>,
) -> (pairs: Vec<(u16, u16)>)
    ensures
        pairs@ == cmap4_pairs(starts@, ends@, deltas@, ros@, gids@),
{
    let mut n: usize = if starts.len() <= ends.len() {
        starts.len()
    } else {
        ends.len()
    };
    let m: usize = if deltas.len() <= ros.len() {
        deltas.len()
    } else {
        ros.len()
    };
    if m < n {
        n = m;
    }
    proof {
        assert(n as int == seg_count_of(starts@, ends@, deltas@, ros@));
    }
    let mut pairs: Vec<(u16, u16)> = Vec::new();
    let mut i: usize = 0;
    proof {
        assert(pairs@ + cmap4_pairs(starts@, ends@, deltas@, ros@, gids@) =~= cmap4_pairs(
            starts@,
            ends@,
            deltas@,
            ros@,
            gids@,
        ));
    }
    while i < n
        invariant
            n as int == seg_count_of(starts@, ends@, deltas@, ros@),
            n <= starts@.len() && n <= ends@.len() && n <= deltas@.len() && n <= ros@.len(),
            0 <= i <= n,
            cmap4_pairs(starts@, ends@, deltas@, ros@, gids@) == pairs@ + pairs_from_seg(
                i as int,
                starts@,
                ends@,
                deltas@,
                ros@,
                gids@,
            ),
        decreases n - i,
    {
        let s = starts[i];
        let e = ends[i];
        let d = deltas[i];
        let ro = ros[i];
        let mut cp: u32 = s as u32;
        let e32: u32 = e as u32;
        proof {
            assert(pairs_from_seg(i as int, starts@, ends@, deltas@, ros@, gids@)
                == seg_pairs_from(
                s as int,
                e32 as int,
                s as int,
                d,
                ro,
                gids@,
                i as int,
                n as int,
            ) + pairs_from_seg(i + 1, starts@, ends@, deltas@, ros@, gids@));
            assert(pairs@ + pairs_from_seg(i as int, starts@, ends@, deltas@, ros@, gids@)
                =~= pairs@ + seg_pairs_from(
                s as int,
                e32 as int,
                s as int,
                d,
                ro,
                gids@,
                i as int,
                n as int,
            ) + pairs_from_seg(i + 1, starts@, ends@, deltas@, ros@, gids@));
        }
        while cp <= e32
            invariant
                s as u32 <= cp <= 0x10000,
                e32 == ends@[i as int] as u32,
                s == starts@[i as int],
                d == deltas@[i as int],
                ro == ros@[i as int],
                0 <= i < n <= starts@.len() && n <= ends@.len() && n <= deltas@.len() && n
                    <= ros@.len(),
                n as int == seg_count_of(starts@, ends@, deltas@, ros@),
                cmap4_pairs(starts@, ends@, deltas@, ros@, gids@) == pairs@ + seg_pairs_from(
                    cp as int,
                    e32 as int,
                    s as int,
                    d,
                    ro,
                    gids@,
                    i as int,
                    n as int,
                ) + pairs_from_seg(i + 1, starts@, ends@, deltas@, ros@, gids@),
            decreases e32 + 1 - cp,
        {
            let g = glyph_for_exec(cp, s, d, ro, gids, i, n);
            let ghost old_pairs = pairs@;
            match g {
                Option::Some(gid) => {
                    pairs.push((cp as u16, gid));
                },
                Option::None => {},
            }
            proof {
                let head: Seq<(u16, u16)> = match glyph_for(
                    cp as int,
                    s as int,
                    d,
                    ro,
                    gids@,
                    i as int,
                    n as int,
                ) {
                    Option::Some(gg) => seq![(cp as u16, gg)],
                    Option::None => Seq::empty(),
                };
                assert(pairs@ =~= old_pairs + head);
                assert(old_pairs + seg_pairs_from(
                    cp as int,
                    e32 as int,
                    s as int,
                    d,
                    ro,
                    gids@,
                    i as int,
                    n as int,
                ) =~= pairs@ + seg_pairs_from(
                    (cp + 1) as int,
                    e32 as int,
                    s as int,
                    d,
                    ro,
                    gids@,
                    i as int,
                    n as int,
                ));
                assert(old_pairs + seg_pairs_from(
                    cp as int,
                    e32 as int,
                    s as int,
                    d,
                    ro,
                    gids@,
                    i as int,
                    n as int,
                ) + pairs_from_seg(i + 1, starts@, ends@, deltas@, ros@, gids@) =~= pairs@
                    + seg_pairs_from(
                    (cp + 1) as int,
                    e32 as int,
                    s as int,
                    d,
                    ro,
                    gids@,
                    i as int,
                    n as int,
                ) + pairs_from_seg(i + 1, starts@, ends@, deltas@, ros@, gids@));
            }
            cp = cp + 1;
        }
        proof {
            assert(seg_pairs_from(cp as int, e32 as int, s as int, d, ro, gids@, i as int, n as int)
                =~= Seq::<(
                u16,
                u16,
            )>::empty());
            assert(pairs@ + Seq::<(u16, u16)>::empty() + pairs_from_seg(
                i + 1,
                starts@,
                ends@,
                deltas@,
                ros@,
                gids@,
            ) =~= pairs@ + pairs_from_seg(i + 1, starts@, ends@, deltas@, ros@, gids@));
        }
        i = i + 1;
    }
    proof {
        assert(pairs_from_seg(n as int, starts@, ends@, deltas@, ros@, gids@) =~= Seq::<(
            u16,
            u16,
        )>::empty());
        assert(pairs@ + Seq::<(u16, u16)>::empty() =~= pairs@);
    }
    pairs
}

/// The character views of a list of looked-up names.
pub open spec fn names_view(ns: Seq<Option<String>>) -> Seq<Option<Seq<char>>> {
    ns.map_values(
        |o: Option<String>|
            match o {
                Option::Some(s) => Option::Some(s@),
                Option::None => Option::None,
            },
    )
}

/// Whether a sixteen-bit code is a Unicode scalar value (not a surrogate).
pub open spec fn valid_scalar16(code: u16) -> bool {
    code < 0xD800 || code >= 0xE000
}

/// The name-to-codepoint map accumulated from the pairs at index `i` on:
/// a pair whose glyph has a name and whose code is a scalar value adds that
/// entry, and a later entry overwrites an earlier one of the same name.
pub open spec fn icon_fold(
    pairs: Seq<(u16, u16)>,
    names: Seq<Option<Seq<char>>>,
    i: int,
    acc: Map<Seq<char>, int>,
) -> Map<Seq<char>, int>
    decreases pairs.len() - i,
{
    if i < 0 || i >= pairs.len() || i >= names.len() {
        acc
    } else {
        let acc2 = match names[i] {
            Option::Some(nm) => if valid_scalar16(pairs[i].0) {
                acc.insert(nm, pairs[i].0 as int)
            } else {
                acc
            },
            Option::None => acc,
        };
        icon_fold(pairs, names, i + 1, acc2)
    }
}

/// The name-to-codepoint map of a decoded pair list and its looked-up
/// names.
pub open spec fn icon_code_map(pairs: Seq<(u16, u16)>, names: Seq<Option<Seq<char>>>) -> Map<
    Seq<char>,
    int,
> {
    icon_fold(pairs, names, 0, Map::empty())
}

/// Builds the icon map from decoded (code, glyph index) pairs and the name
/// looked up for each pair's glyph: pairs without a name or with a
/// surrogate code are skipped, and on a name collision the later pair wins.
pub fn assemble_icon_map(pairs: &Vec<(u16, u16)>, names: &Vec<Option<String>>) -> (m: IconMap)
    requires
        pairs@.len() == names@.len(),
    ensures
        forall|k: Seq<char>|
            m@.contains_key(k) <==> icon_code_map(pairs@, names_view(names@)).contains_key(k),
        forall|k: Seq<char>|
            icon_code_map(pairs@, names_view(names@)).contains_key(k) ==> m@[k] as int
                == icon_code_map(pairs@, names_view(names@))[k],
{
    let ghost nv = names_view(names@);
    let ghost total = icon_code_map(pairs@, nv);
    let mut m = IconMap::new();
    let ghost mut acc: Map<Seq<char>, int> = Map::empty();
    let n = pairs.len();
    let mut i: usize = 0;
    while i < n
        invariant
            n == pairs@.len() == names@.len(),
            0 <= i <= n,
            nv == names_view(names@),
            total == icon_code_map(pairs@, nv),
            icon_fold(pairs@, nv, i as int, acc) == total,
            forall|k: Seq<char>| m@.contains_key(k) <==> acc.contains_key(k),
            forall|k: Seq<char>| acc.contains_key(k) ==> m@[k] as int == acc[k],
        decreases n - i,
    {
        let (code, _gid) = pairs[i];
        let ghost old_acc = acc;
        proof {
            assert(nv[i as int] == match names@[i as int] {
                Option::Some(s) => Option::Some(s@),
                Option::None => Option::<Seq<char>>::None,
            });
        }
        let name_opt = &names[i];
        match name_opt {
            Option::Some(name) => {
                match char_from_u32(code as u32) {
                    Option::Some(c) => {
                        m.insert(name.clone(), c);
                        proof {
                            acc = acc.insert(name@, code as int);
                            assert(valid_scalar16(code));
                        }
                    },
                    Option::None => {
                        proof {
                            assert(!valid_scalar16(code));
                        }
                    },
                }
            },
            Option::None => {},
        }
        proof {
            let acc2 = match nv[i as int] {
                Option::Some(nm) => if valid_scalar16(pairs@[i as int].0) {
                    old_acc.insert(nm, pairs@[i as int].0 as int)
                } else {
                    old_acc
                },
                Option::None => old_acc,
            };
            assert(acc == acc2);
            assert(icon_fold(pairs@, nv, i as int, old_acc) == icon_fold(
                pairs@,
                nv,
                i + 1,
                acc2,
            ));
        }
        i = i + 1;
    }
    m
}

/// A pair whose glyph has no name contributes nothing to the icon map:
/// dropping the pair, with its name slot, leaves the assembled
/// name-to-codepoint map unchanged, whatever the other pairs and names
/// hold.
pub proof fn lemma_nameless_glyph_omitted(
    pairs: Seq<(u16, u16)>,
    names: Seq<Option<Seq<char>>>,
    j: int,
)
    requires
        pairs.len() == names.len(),
        0 <= j < pairs.len(),
        names[j] is None,
    ensures
        icon_code_map(pairs, names) == icon_code_map(pairs.remove(j), names.remove(j)),
{
    lemma_fold_remove(pairs, names, j, 0, Map::empty());
}

proof fn lemma_fold_remove(
    pairs: Seq<(u16, u16)>,
    names: Seq<Option<Seq<char>>>,
    j: int,
    i: int,
    acc: Map<Seq<char>, int>,
)
    requires
        pairs.len() == names.len(),
        0 <= j < pairs.len(),
        names[j] is None,
        0 <= i <= pairs.len(),
    ensures
        icon_fold(pairs, names, i, acc) == icon_fold(
            pairs.remove(j),
            names.remove(j),
            if i <= j {
                i
            } else {
                i - 1
            },
            acc,
        ),
    decreases pairs.len() - i,
{
    let rp = pairs.remove(j);
    let rn = names.remove(j);
    pairs.remove_ensures(j);
    names.remove_ensures(j);
    if i == pairs.len() {
        assert(icon_fold(rp, rn, i - 1, acc) == acc);
    } else if i == j {
        lemma_fold_remove(pairs, names, j, i + 1, acc);
        assert(icon_fold(pairs, names, i, acc) == icon_fold(pairs, names, i + 1, acc));
    } else {
        let acc2 = match names[i] {
            Option::Some(nm) => if valid_scalar16(pairs[i].0) {
                acc.insert(nm, pairs[i].0 as int)
            } else {
                acc
            },
            Option::None => acc,
        };
        lemma_fold_remove(pairs, names, j, i + 1, acc2);
        if i < j {
            assert(rp[i] == pairs[i]);
            assert(rn[i] == names[i]);
            assert(icon_fold(rp, rn, i, acc) == icon_fold(rp, rn, i + 1, acc2));
        } else {
            assert(rp[i - 1] == pairs[i]);
            assert(rn[i - 1] == names[i]);
            assert(icon_fold(rp, rn, i - 1, acc) == icon_fold(rp, rn, i, acc2));
        }
    }
}

/// The (code, glyph index) pairs the font bytes decode to: those of the
/// segmented subtable behind the preferred encoding record, or none when
/// no readable character map, no preferred record or no segmented
/// subtable is there.
pub open spec fn decoded_pairs(data: Seq<u8>) -> Seq<(u16, u16)> {
    match cmap_records_of(data) {
        Option::None => Seq::empty(),
        Option::Some(records) => match preferred_index(records) {
            Option::None => Seq::empty(),
            Option::Some(i) => match format4_arrays_of(data, i) {
                Option::None => Seq::empty(),
                Option::Some(a) => cmap4_pairs(a.0, a.1, a.2, a.3, a.4),
            },
        },
    }
}

/// The name looked up for each decoded pair's glyph index.
pub open spec fn decoded_names(data: Seq<u8>) -> Seq<Option<Seq<char>>> {
    Seq::new(decoded_pairs(data).len(), |k: int| glyph_name_of(data, decoded_pairs(data)[k].1))
}

/// The name-to-codepoint map the font bytes decode to: the decoded pairs
/// resolved against the name table, a function of the bytes alone.
pub open spec fn decoded_code_map(data: Seq<u8>) -> Map<Seq<char>, int> {
    icon_code_map(decoded_pairs(data), decoded_names(data))
}

/// Whether an icon map realizes the mapping decoded from the bytes: the
/// same names, each carrying its decoded codepoint.
pub open spec fn map_matches(m: IconMap, data: Seq<u8>) -> bool {
    &&& forall|k: Seq<char>| m@.contains_key(k) <==> decoded_code_map(data).contains_key(k)
    &&& forall|k: Seq<char>|
        decoded_code_map(data).contains_key(k) ==> m@[k] as int == decoded_code_map(data)[k]
}

proof fn lemma_no_pairs_matches(m: IconMap, data: Seq<u8>)
    requires
        m@ == Map::<Seq<char>, char>::empty(),
        decoded_pairs(data).len() == 0,
    ensures
        map_matches(m, data),
{
    assert(decoded_code_map(data) == icon_fold(
        decoded_pairs(data),
        decoded_names(data),
        0,
        Map::empty(),
    ));
    assert(decoded_code_map(data) == Map::<Seq<char>, int>::empty());
    assert forall|k: Seq<char>| !m@.contains_key(k) && !decoded_code_map(data).contains_key(
        k,
    ) by {
        assert(!Map::<Seq<char>, char>::empty().contains_key(k));
        assert(!Map::<Seq<char>, int>::empty().contains_key(k));
    }
}

/// Returns a mapping of icon names to their assigned Unicode values,
/// decoded from the bytes of a compiled font.
///
/// The preferred character-map subtable is selected by platform, its
/// segments are decoded, and each resolved glyph index is looked up in the
/// glyph-name table; the result realizes exactly the map those reads
/// determine, a function of the bytes alone. A font without a usable
/// character map, preferred record or segmented subtable yields the empty
/// mapping, and a glyph without a name contributes nothing; only bytes
/// that do not parse as a font container are an error.
pub fn build_icon_map_from_bytes(font_data: &[u8]) -> (r: Result<IconMap, Error>)
    ensures
        r is Ok <==> parses_as_font(font_data@),
        r is Err ==> r->Err_0 is FontRead,
        r is Ok ==> map_matches(r->Ok_0, font_data@),
{
    match parse_font(font_data) {
        Result::Ok(_) => {},
        Result::Err(e) => {
            return Result::Err(e);
        },
    }
    let records = match cmap_records(font_data) {
        Option::Some(v) => v,
        Option::None => {
            let m = IconMap::new();
            proof {
                lemma_no_pairs_matches(m, font_data@);
            }
            return Result::Ok(m);
        },
    };
    let idx = match pick_record(&records) {
        Option::Some(i) => i,
        Option::None => {
            let m = IconMap::new();
            proof {
                lemma_no_pairs_matches(m, font_data@);
            }
            return Result::Ok(m);
        },
    };
    let arrays = match format4_arrays(font_data, idx) {
        Option::Some(t) => t,
        Option::None => {
            let m = IconMap::new();
            proof {
                lemma_no_pairs_matches(m, font_data@);
            }
            return Result::Ok(m);
        },
    };
    let (starts, ends, deltas, ros, gid_array) = arrays;
    let pairs = decode_cmap4(&starts, &ends, &deltas, &ros, &gid_array);
    proof {
        assert(pairs@ == decoded_pairs(font_data@));
    }
    let mut names: Vec<Option<String>> = Vec::new();
    let np = pairs.len();
    let mut k: usize = 0;
    while k < np
        invariant
            np == pairs@.len(),
            0 <= k <= np,
            names@.len() == k,
            pairs@ == decoded_pairs(font_data@),
            forall|j: int|
                0 <= j < k ==> names_view(names@)[j] == glyph_name_of(
                    font_data@,
                    pairs@[j].1,
                ),
        decreases np - k,
    {
        let (_code, gid) = pairs[k];
        let ghost old_names = names@;
        let nm = glyph_name(font_data, gid);
        names.push(nm);
        proof {
            assert(names_view(names@) =~= names_view(old_names).push(
                glyph_name_of(font_data@, pairs@[k as int].1),
            ));
        }
        k = k + 1;
    }
    let m = assemble_icon_map(&pairs, &names);
    proof {
        assert(names_view(names@) =~= decoded_names(font_data@));
        assert(icon_code_map(pairs@, names_view(names@)) == decoded_code_map(font_data@));
        assert(map_matches(m, font_data@));
    }
    Result::Ok(m)
}

proof fn lemma_pua_seg(cp: int, e: int)
    requires
        0xE000 <= cp <= e + 1,
        e <= 0xFFFF,
    ensures
        seg_pairs_from(cp, e, 0xE000, 8193i16, 0u16, Seq::empty(), 0, 1) =~= Seq::new(
            (e + 1 - cp) as nat,
            |i: int| ((cp + i) as u16, (cp - 0xE000 + 1 + i) as u16),
        ),
    decreases e + 1 - cp,
{
    if cp > e {
    } else {
        lemma_pua_seg(cp + 1, e);
        assert(glyph_for(cp, 0xE000, 8193i16, 0u16, Seq::empty(), 0, 1) == Option::Some(
            (cp - 57343) as u16,
        ));
    }
}

/// Round trip of the character map: the segment that a contiguous
/// private-use assignment compiles to decodes back to exactly the assigned
/// pairs, and resolving their glyph indices against distinct names yields
/// the map that sends the i-th name to codepoint 0xE000 + i — those n
/// entries and no others.
pub proof fn lemma_round_trip(names: Seq<Seq<char>>, n: int)
    requires
        1 <= n <= 8192,
        names.len() == n,
        forall|i: int, j: int| 0 <= i < n && 0 <= j < n && i != j ==> names[i] != names[j],
    ensures
        ({
            let pairs = cmap4_pairs(
                seq![0xE000u16],
                seq![(0xE000 + n - 1) as u16],
                seq![8193i16],
                seq![0u16],
                Seq::empty(),
            );
            let nv = Seq::new(n as nat, |i: int| Option::Some(names[i]));
            let m = icon_code_map(pairs, nv);
            &&& pairs.len() == n
            &&& forall|i: int|
                0 <= i < n ==> pairs[i] == ((0xE000 + i) as u16, (i + 1) as u16)
            &&& forall|i: int|
                0 <= i < n ==> (#[trigger] pairs[i]).0 as int == cmap_mappings_spec(n)[i].0 as int
                    && pairs[i].1 == cmap_mappings_spec(n)[i].1
            &&& forall|i: int|
                0 <= i < n ==> m.contains_key(names[i]) && m[names[i]] == 0xE000 + i
            &&& forall|k: Seq<char>|
                m.contains_key(k) ==> exists|i: int| 0 <= i < n && k == names[i]
        }),
{
    let starts = seq![0xE000u16];
    let ends = seq![(0xE000 + n - 1) as u16];
    let deltas = seq![8193i16];
    let ros = seq![0u16];
    let gids = Seq::<u16>::empty();
    assert(seg_count_of(starts, ends, deltas, ros) == 1);
    lemma_pua_seg(0xE000, 0xE000 + n - 1);
    let pairs = cmap4_pairs(starts, ends, deltas, ros, gids);
    assert(pairs_from_seg(1, starts, ends, deltas, ros, gids) =~= Seq::<(u16, u16)>::empty());
    assert(pairs =~= seg_pairs_from(0xE000, 0xE000 + n - 1, 0xE000, 8193i16, 0u16, gids, 0, 1)
        + Seq::<(u16, u16)>::empty());
    assert(pairs =~= Seq::new(n as nat, |i: int| ((0xE000 + i) as u16, (i + 1) as u16)));
    let nv = Seq::new(n as nat, |i: int| Option::Some(names[i]));
    assert(forall|j: int| 0 <= j < n ==> valid_scalar16(#[trigger] pairs[j].0));
    lemma_icon_fold_distinct(pairs, nv, names, 0, Map::empty());
    let m = icon_code_map(pairs, nv);
    assert forall|k: Seq<char>| m.contains_key(k) implies exists|i: int|
        0 <= i < n && k == names[i] by {
        if m.contains_key(k) {
            let j = choose|j: int| 0 <= j < names.len() && k == names[j];
            assert(0 <= j < n && k == names[j]);
        }
    }
}

proof fn lemma_icon_fold_distinct(
    pairs: Seq<(u16, u16)>,
    nv: Seq<Option<Seq<char>>>,
    names: Seq<Seq<char>>,
    i: int,
    acc: Map<Seq<char>, int>,
)
    requires
        pairs.len() == names.len(),
        nv.len() == names.len(),
        0 <= i <= names.len(),
        forall|j: int| 0 <= j < names.len() ==> nv[j] == Option::Some(names[j]),
        forall|j: int| 0 <= j < names.len() ==> valid_scalar16((#[trigger] pairs[j]).0),
        forall|j: int, l: int|
            0 <= j < names.len() && 0 <= l < names.len() && j != l ==> names[j] != names[l],
        forall|j: int|
            0 <= j < i ==> acc.contains_key(#[trigger] names[j]) && acc[names[j]]
                == pairs[j].0 as int,
        forall|k: Seq<char>| acc.contains_key(k) ==> exists|j: int| 0 <= j < i && k == names[j],
    ensures
        forall|j: int|
            0 <= j < names.len() ==> icon_fold(pairs, nv, i, acc).contains_key(
                #[trigger] names[j],
            ) && icon_fold(pairs, nv, i, acc)[names[j]] == pairs[j].0 as int,
        forall|k: Seq<char>|
            icon_fold(pairs, nv, i, acc).contains_key(k) ==> exists|j: int|
                0 <= j < names.len() && k == names[j],
    decreases names.len() - i,
{
    if i >= names.len() {
        assert(icon_fold(pairs, nv, i, acc) == acc);
    } else {
        let acc2 = acc.insert(names[i], pairs[i].0 as int);
        assert forall|j: int|
            0 <= j < i + 1 implies acc2.contains_key(#[trigger] names[j]) && acc2[names[j]]
            == pairs[j].0 as int by {
            if j < i {
                assert(names[j] != names[i]);
                assert(acc.contains_key(names[j]) && acc[names[j]] == pairs[j].0 as int);
            }
        }
        assert forall|k: Seq<char>| acc2.contains_key(k) implies exists|j: int|
            0 <= j < i + 1 && k == names[j] by {
            if acc2.contains_key(k) {
                if acc.contains_key(k) && k != names[i] {
                    let j = choose|j: int| 0 <= j < i && k == names[j];
                    assert(0 <= j < i + 1 && k == names[j]);
                } else {
                    assert(k == names[i]);
                    assert(0 <= i < i + 1 && k == names[i]);
                }
            }
        }
        lemma_icon_fold_distinct(pairs, nv, names, i + 1, acc2);
        assert(icon_fold(pairs, nv, i, acc) == icon_fold(pairs, nv, i + 1, acc2));
    }
}

} // verus!

