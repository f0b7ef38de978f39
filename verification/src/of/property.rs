//! Typed access to device tree properties: element counts, indexed and
//! array reads of cells, and string lists.
use vstd::prelude::*;
use crate::of::base::{DeviceNode, of_find_property, of_get_property, prop_value};
use crate::of::cells::{be32, be64, read_be32, read_be64};
use crate::text::{find_seg_end, lemma_seg_end_bounds, seg_end, strlist_find, strlist_index, utf8_str};
use vstd::string::StringSliceAdditionalSpecFns;
use vstd::utf8::valid_utf8;

verus! {

/// Property access errors.
#[derive(Debug, Clone, Copy, PartialEq, Eq, Structural)]
pub enum PropError {
    /// Property does not exist.
    Invalid,
    /// Property has no value.
    NoData,
    /// Property data overflow.
    Overflow,
    /// String not null-terminated.
    InvalidSeq,
}

/// Whether the node has the property.
pub fn of_property_read_bool(np: Option<&DeviceNode>, propname: &str) -> (r: bool)
    ensures
        r == (prop_value(np, propname@) is Some),
{
    of_get_property(np, propname).is_some()
}

/// Number of `elem_size`-byte elements of a property: `Invalid` without
/// it or when its size is not a multiple, `NoData` when empty.
pub fn of_property_count_elems_of_size(np: Option<&DeviceNode>, propname: &str, elem_size: usize) -> (r: Result<
    usize,
    PropError,
>)
    requires
        prop_value(np, propname@) matches Some(v) && v.len() > 0 ==> elem_size > 0,
    ensures
        prop_value(np, propname@) is None ==> r == Err::<usize, PropError>(PropError::Invalid),
        prop_value(np, propname@) matches Some(v) ==> r == if v.len() == 0 {
            Err::<usize, PropError>(PropError::NoData)
        } else if v.len() % (elem_size as nat) != 0 {
            Err::<usize, PropError>(PropError::Invalid)
        } else {
            Ok::<usize, PropError>((v.len() / (elem_size as nat)) as usize)
        },
{
    let v = match of_get_property(np, propname) {
        None => {
            return Err(PropError::Invalid);
        },
        Some(v) => v,
    };
    if v.len() == 0 {
        return Err(PropError::NoData);
    }
    if v.len() % elem_size != 0 {
        return Err(PropError::Invalid);
    }
    Ok(v.len() / elem_size)
}

/// The `index`-th cell of a property: `Invalid` without it, `Overflow`
/// when it has fewer cells.
pub fn of_property_read_u32_index(np: Option<&DeviceNode>, propname: &str, index: usize) -> (r: Result<u32, PropError>)
    requires
        prop_value(np, propname@) is Some ==> (index + 1) * 4 <= usize::MAX,
    ensures
        prop_value(np, propname@) is None ==> r == Err::<u32, PropError>(PropError::Invalid),
        prop_value(np, propname@) matches Some(v) ==> r == if v.len() < (index + 1) * 4 {
            Err::<u32, PropError>(PropError::Overflow)
        } else {
            Ok::<u32, PropError>(be32(v, index * 4))
        },
{
    let v = match of_get_property(np, propname) {
        None => {
            return Err(PropError::Invalid);
        },
        Some(v) => v,
    };
    let required = (index + 1) * 4;
    if v.len() < required {
        return Err(PropError::Overflow);
    }
    Ok(read_be32(v, index * 4))
}

/// The `index`-th 64-bit value of a property: `Invalid` without it,
/// `Overflow` when it is too short.
pub fn of_property_read_u64_index(np: Option<&DeviceNode>, propname: &str, index: usize) -> (r: Result<u64, PropError>)
    requires
        prop_value(np, propname@) is Some ==> (index + 1) * 8 <= usize::MAX,
    ensures
        prop_value(np, propname@) is None ==> r == Err::<u64, PropError>(PropError::Invalid),
        prop_value(np, propname@) matches Some(v) ==> r == if v.len() < (index + 1) * 8 {
            Err::<u64, PropError>(PropError::Overflow)
        } else {
            Ok::<u64, PropError>(be64(v, index * 8))
        },
{
    let v = match of_get_property(np, propname) {
        None => {
            return Err(PropError::Invalid);
        },
        Some(v) => v,
    };
    let required = (index + 1) * 8;
    if v.len() < required {
        return Err(PropError::Overflow);
    }
    Ok(read_be64(v, index * 8))
}

/// Read as many whole cells of a property as `out` holds; returns how
/// many were read (`Invalid` without it, `NoData` when empty). The rest of
/// `out` is unchanged.
pub fn of_property_read_u32_array(np: Option<&DeviceNode>, propname: &str, out_values: &mut [u32]) -> (r: Result<
    usize,
    PropError,
>)
    ensures
        final(out_values)@.len() == old(out_values)@.len(),
        prop_value(np, propname@) is None ==> r == Err::<usize, PropError>(PropError::Invalid) && final(out_values)@ == old(
            out_values,
        )@,
        prop_value(np, propname@) matches Some(v) && v.len() == 0 ==> r == Err::<usize, PropError>(PropError::NoData)
            && final(out_values)@ == old(out_values)@,
        prop_value(np, propname@) is Some && prop_value(np, propname@).unwrap().len() > 0 ==> {
            let v = prop_value(np, propname@).unwrap();
            let n: int = if v.len() / 4 < old(out_values)@.len() { (v.len() / 4) as int } else { old(out_values)@.len() as int };
            &&& r == Ok::<usize, PropError>(n as usize)
            &&& forall|i: int| 0 <= i < n ==> #[trigger] final(out_values)@[i] == be32(v, 4 * i)
            &&& forall|i: int| n <= i < old(out_values)@.len() ==> #[trigger] final(out_values)@[i] == old(out_values)@[i]
        },
{
    let v = match of_get_property(np, propname) {
        None => {
            return Err(PropError::Invalid);
        },
        Some(v) => v,
    };
    if v.len() == 0 {
        return Err(PropError::NoData);
    }
    let _n = v.len();
    let count = v.len() / 4;
    let to_read = if count < out_values.len() { count } else { out_values.len() };
    let mut i: usize = 0;
    while i < to_read
        invariant
            to_read <= v@.len() / 4,
            v@.len() <= usize::MAX,
            to_read <= out_values@.len(),
            out_values@.len() == old(out_values)@.len(),
            i <= to_read,
            forall|k: int| 0 <= k < i ==> #[trigger] out_values@[k] == be32(v@, 4 * k),
            forall|k: int| i <= k < old(out_values)@.len() ==> #[trigger] out_values@[k] == old(out_values)@[k],
        decreases to_read - i,
    {
        assert((i + 1) * 4 <= v@.len()) by (nonlinear_arith)
            requires
                i < to_read,
                to_read <= v@.len() / 4,
        ;
        out_values[i] = read_be32(v, i * 4);
        i = i + 1;
    }
    Ok(to_read)
}

/// Read as many whole 64-bit values of a property as `out` holds; returns
/// how many were read (`Invalid` without it, `NoData` when empty).
pub fn of_property_read_u64_array(np: Option<&DeviceNode>, propname: &str, out_values: &mut [u64]) -> (r: Result<
    usize,
    PropError,
>)
    ensures
        final(out_values)@.len() == old(out_values)@.len(),
        prop_value(np, propname@) is None ==> r == Err::<usize, PropError>(PropError::Invalid) && final(out_values)@ == old(
            out_values,
        )@,
        prop_value(np, propname@) matches Some(v) && v.len() == 0 ==> r == Err::<usize, PropError>(PropError::NoData)
            && final(out_values)@ == old(out_values)@,
        prop_value(np, propname@) is Some && prop_value(np, propname@).unwrap().len() > 0 ==> {
            let v = prop_value(np, propname@).unwrap();
            let n: int = if v.len() / 8 < old(out_values)@.len() { (v.len() / 8) as int } else { old(out_values)@.len() as int };
            &&& r == Ok::<usize, PropError>(n as usize)
            &&& forall|i: int| 0 <= i < n ==> #[trigger] final(out_values)@[i] == be64(v, 8 * i)
            &&& forall|i: int| n <= i < old(out_values)@.len() ==> #[trigger] final(out_values)@[i] == old(out_values)@[i]
        },
{
    let v = match of_get_property(np, propname) {
        None => {
            return Err(PropError::Invalid);
        },
        Some(v) => v,
    };
    if v.len() == 0 {
        return Err(PropError::NoData);
    }
    let _n = v.len();
    let count = v.len() / 8;
    let to_read = if count < out_values.len() { count } else { out_values.len() };
    let mut i: usize = 0;
    while i < to_read
        invariant
            to_read <= v@.len() / 8,
            v@.len() <= usize::MAX,
            to_read <= out_values@.len(),
            out_values@.len() == old(out_values)@.len(),
            i <= to_read,
            forall|k: int| 0 <= k < i ==> #[trigger] out_values@[k] == be64(v@, 8 * k),
            forall|k: int| i <= k < old(out_values)@.len() ==> #[trigger] out_values@[k] == old(out_values)@[k],
        decreases to_read - i,
    {
        assert((i + 1) * 8 <= v@.len()) by (nonlinear_arith)
            requires
                i < to_read,
                to_read <= v@.len() / 8,
        ;
        out_values[i] = read_be64(v, i * 8);
        i = i + 1;
    }
    Ok(to_read)
}

/// Position of `string` in a string-list property: `Invalid` without it,
/// `NoData` when it is empty or does not list the string.
pub fn of_property_match_string(np: Option<&DeviceNode>, propname: &str, string: &str) -> (r: Result<usize, PropError>)
    ensures
        prop_value(np, propname@) is None ==> r == Err::<usize, PropError>(PropError::Invalid),
        prop_value(np, propname@) matches Some(v) ==> match strlist_find(v, string.spec_bytes(), 0, 0) {
            None => r == Err::<usize, PropError>(PropError::NoData),
            Some(i) => r == Ok::<usize, PropError>(i as usize),
        },
{
    let v = match of_get_property(np, propname) {
        None => {
            return Err(PropError::Invalid);
        },
        Some(v) => v,
    };
    match strlist_index(v, string.as_bytes()) {
        None => Err(PropError::NoData),
        Some(i) => Ok(i),
    }
}

/// The NUL-separated segments of `v` from byte `off` on.
pub open spec fn segments(v: Seq<u8>, off: int) -> Seq<Seq<u8>>
    decreases v.len() + 1 - off,
{
    if off < 0 || off >= v.len() {
        seq![]
    } else {
        proof {
            lemma_seg_end_bounds(v, off);
        }
        seq![v.subrange(off, seg_end(v, off))] + segments(v, seg_end(v, off) + 1)
    }
}

/// The valid UTF-8 segments among `segs[i..]` whose position is at least
/// `skip`, at most `room` of them.
pub open spec fn picked(segs: Seq<Seq<u8>>, i: int, skip: int, room: int) -> Seq<Seq<u8>>
    decreases segs.len() - i,
{
    if i < 0 || i >= segs.len() || room <= 0 {
        seq![]
    } else if i >= skip && valid_utf8(segs[i]) {
        seq![segs[i]] + picked(segs, i + 1, skip, room - 1)
    } else {
        picked(segs, i + 1, skip, room)
    }
}

proof fn lemma_picked_len(segs: Seq<Seq<u8>>, i: int, skip: int, room: int)
    requires
        0 <= room,
    ensures
        picked(segs, i, skip, room).len() <= room,
    decreases segs.len() - i,
{
    if 0 <= i < segs.len() && room > 0 {
        if i >= skip && valid_utf8(segs[i]) {
            lemma_picked_len(segs, i + 1, skip, room - 1);
        } else {
            lemma_picked_len(segs, i + 1, skip, room);
        }
    }
}

/// Read the strings of a string-list property, skipping the first `skip`
/// entries and entries that are not valid UTF-8, into `out_strs`; returns
/// how many were stored (`Invalid` without the property, `NoData` when it
/// is empty or nothing was stored).
pub fn of_property_read_string_array<'a>(
    np: Option<&'a DeviceNode>,
    propname: &str,
    out_strs: &mut [&'a str],
    skip: usize,
) -> (r: Result<usize, PropError>)
    ensures
        final(out_strs)@.len() == old(out_strs)@.len(),
        prop_value(np, propname@) is None ==> r == Err::<usize, PropError>(PropError::Invalid),
        prop_value(np, propname@) matches Some(v) && v.len() == 0 ==> r == Err::<usize, PropError>(PropError::NoData),
        prop_value(np, propname@) is Some && prop_value(np, propname@).unwrap().len() > 0 ==> {
            let v = prop_value(np, propname@).unwrap();
            let p = picked(segments(v, 0), 0, skip as int, old(out_strs)@.len() as int);
            &&& p.len() == 0 ==> r == Err::<usize, PropError>(PropError::NoData)
            &&& p.len() > 0 ==> r == Ok::<usize, PropError>(p.len() as usize)
            &&& forall|j: int| 0 <= j < p.len() ==> (#[trigger] final(out_strs)@[j]).spec_bytes() == p[j]
            &&& forall|j: int| p.len() <= j < old(out_strs)@.len() ==> #[trigger] final(out_strs)@[j] == old(out_strs)@[j]
        },
{
    let v = match of_get_property(np, propname) {
        None => {
            return Err(PropError::Invalid);
        },
        Some(v) => v,
    };
    if v.len() == 0 {
        return Err(PropError::NoData);
    }
    let ghost segs = segments(v@, 0);
    let ghost total = picked(segs, 0, skip as int, old(out_strs)@.len() as int);
    let mut index: usize = 0;
    let mut offset: usize = 0;
    let mut out_index: usize = 0;
    while offset < v.len() && out_index < out_strs.len()
        invariant
            out_strs@.len() == old(out_strs)@.len(),
            index <= offset <= v@.len(),
            out_index <= out_strs@.len(),
            segs == segments(v@, 0),
            index <= segs.len(),
            segments(v@, 0) == segs.subrange(0, index as int) + segments(v@, offset as int),
            total == picked(segs, 0, skip as int, old(out_strs)@.len() as int),
            total == total.subrange(0, out_index as int) + picked(
                segs,
                index as int,
                skip as int,
                old(out_strs)@.len() - out_index,
            ),
            out_index <= total.len(),
            forall|j: int| 0 <= j < out_index ==> (#[trigger] out_strs@[j]).spec_bytes() == total[j],
            forall|j: int| out_index <= j < old(out_strs)@.len() ==> #[trigger] out_strs@[j] == old(out_strs)@[j],
        decreases v@.len() - offset,
    {
        let e = find_seg_end(v, offset);
        proof {
            lemma_seg_end_bounds(v@, offset as int);
            let rest = segments(v@, offset as int);
            assert(rest == seq![v@.subrange(offset as int, e as int)] + segments(v@, e + 1));
            assert(segs[index as int] == (segs.subrange(0, index as int) + rest)[index as int]);
            assert(segs[index as int] == v@.subrange(offset as int, e as int));
            assert(segs.subrange(0, index as int) + rest =~= segs.subrange(0, index as int + 1) + segments(v@, e + 1));
        }
        let seg = &v[offset..e];
        if index >= skip {
            match utf8_str(seg) {
                Some(s) => {
                    proof {
                        assert(picked(segs, index as int, skip as int, old(out_strs)@.len() - out_index) == seq![
                            segs[index as int],
                        ] + picked(segs, index + 1, skip as int, old(out_strs)@.len() - out_index - 1));
                        assert(total.subrange(0, out_index as int) + (seq![segs[index as int]] + picked(
                            segs,
                            index + 1,
                            skip as int,
                            old(out_strs)@.len() - out_index - 1,
                        )) =~= total.subrange(0, out_index as int).push(segs[index as int]) + picked(
                            segs,
                            index + 1,
                            skip as int,
                            old(out_strs)@.len() - out_index - 1,
                        ));
                        assert(total[out_index as int] == segs[index as int]);
                        assert(total.subrange(0, out_index as int).push(segs[index as int]) =~= total.subrange(
                            0,
                            out_index + 1,
                        ));
                    }
                    out_strs[out_index] = s;
                    out_index = out_index + 1;
                },
                None => {},
            }
        }
        index = index + 1;
        if e == v.len() {
            assert(segments(v@, e + 1) =~= segments(v@, e as int));
            offset = e;
        } else {
            offset = e + 1;
        }
    }
    proof {
        lemma_picked_len(segs, index as int, skip as int, old(out_strs)@.len() - out_index);
        if out_index < out_strs@.len() {
            assert(segments(v@, offset as int) =~= Seq::<Seq<u8>>::empty());
            assert(segs.subrange(0, index as int) =~= segs);
            assert(picked(segs, index as int, skip as int, old(out_strs)@.len() - out_index) =~= Seq::<Seq<u8>>::empty());
        }
        assert(total.subrange(0, out_index as int) =~= total);
    }
    if out_index == 0 {
        Err(PropError::NoData)
    } else {
        Ok(out_index)
    }
}

} // verus!
