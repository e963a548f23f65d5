//! Which relative names address entries of the backing store.
//!
//! A storage name is a relative path with `/` separators. Its components are
//! read as `std::path::Path` reads them on Unix: empty components (repeated
//! separators) and `.` components after the first are dropped. Each remaining
//! component is then checked by [`check_storage_component`], one at a time,
//! so that the caller can inspect the file system between components.
use super::StoreError;
use crate::metadata::{ascii_lower, contains_byte, has_meta_suffix, is_invalid_name, meta_suffix, spec_user_entry_name, to_ascii_lower, check_user_entry_name};
use vstd::prelude::*;

verus! {

broadcast use vstd::seq_lib::group_filter_ensures;

/// The contents of a sequence of byte vectors.
pub open spec fn views(v: Seq<Vec<u8>>) -> Seq<Seq<u8>> {
    v.map_values(|x: Vec<u8>| x@)
}

/// The pieces of `s` between `/` separators, in order.
pub open spec fn segments(s: Seq<u8>) -> Seq<Seq<u8>>
    decreases s.len(),
{
    if s.len() == 0 {
        seq![Seq::empty()]
    } else {
        let init = segments(s.drop_last());
        if s.last() == 47u8 {
            init.push(Seq::empty())
        } else {
            init.update(init.len() - 1, init.last().push(s.last()))
        }
    }
}

/// There is always at least one segment, and none holds a separator.
pub proof fn lemma_segments(s: Seq<u8>)
    ensures
        segments(s).len() >= 1,
        forall|k: int| 0 <= k < segments(s).len() ==> !(#[trigger] segments(s)[k]).contains(47u8),
    decreases s.len(),
{
    if s.len() > 0 {
        lemma_segments(s.drop_last());
        let init = segments(s.drop_last());
        if s.last() != 47u8 {
            let last = init.last().push(s.last());
            assert forall|k: int| 0 <= k < segments(s).len() implies !(#[trigger] segments(s)[k]).contains(47u8) by {
                if k == init.len() - 1 {
                    if last.contains(47u8) {
                        let j = choose|j: int| 0 <= j < last.len() && last[j] == 47u8;
                        if j < init.last().len() {
                            assert(init.last()[j] == 47u8);
                            assert(init[init.len() - 1].contains(47u8));
                        }
                    }
                }
            }
        } else {
            assert forall|k: int| 0 <= k < segments(s).len() implies !(#[trigger] segments(s)[k]).contains(47u8) by {
                if k < init.len() {
                    assert(segments(s)[k] == init[k]);
                } else {
                    assert(segments(s)[k] =~= Seq::<u8>::empty());
                }
            }
        }
    }
}

/// A segment that names a component: not empty and not `.`.
pub open spec fn kept_segment(segment: Seq<u8>) -> bool {
    segment.len() > 0 && segment != seq![46u8]
}

/// The components of a storage name, or why it cannot name a storage entry.
pub open spec fn spec_storage_parts(name: Seq<u8>) -> Result<Seq<Seq<u8>>, StoreError> {
    if name.len() == 0 || name.contains(92u8) || name.contains(58u8) {
        Err(StoreError::NotRelativePath)
    } else if name[0] == 47u8 || segments(name)[0] == seq![46u8] {
        Err(StoreError::InvalidPath)
    } else {
        Ok(segments(name).filter(|s: Seq<u8>| kept_segment(s)))
    }
}

/// The prefix reserved for the store's own control files: `.ab-worm`.
pub open spec fn control_prefix() -> Seq<u8> {
    seq![46u8, 97u8, 98u8, 45u8, 119u8, 111u8, 114u8, 109u8]
}

/// A name that starts with `.ab-worm` in any ASCII letter case.
pub open spec fn has_control_prefix(name: Seq<u8>) -> bool {
    &&& name.len() >= 8
    &&& forall|i: int| 0 <= i < 8 ==> #[trigger] ascii_lower(name[i]) == control_prefix()[i]
}

/// Which components a storage path may hold: not `..`, a valid user entry
/// name (so never a metadata name), and not a control name.
pub open spec fn spec_storage_component(component: Seq<u8>) -> Result<(), StoreError> {
    if component == seq![46u8, 46u8] {
        Err(StoreError::InvalidPath)
    } else if spec_user_entry_name(component) is Err {
        Err(StoreError::ReservedEntryName)
    } else if has_control_prefix(component) {
        Err(StoreError::ReservedControlName)
    } else {
        Ok(())
    }
}

/// Splits `name` at every `/`.
pub fn split_segments(name: &[u8]) -> (r: Vec<Vec<u8>>)
    ensures
        views(r@) == segments(name@),
{
    let mut done: Vec<Vec<u8>> = Vec::new();
    let mut current: Vec<u8> = Vec::new();
    let mut i: usize = 0;
    proof {
        assert(name@.subrange(0, 0) =~= Seq::<u8>::empty());
    }
    while i < name.len()
        invariant
            i <= name.len(),
            segments(name@.subrange(0, i as int)).len() >= 1,
            views(done@) =~= segments(name@.subrange(0, i as int)).drop_last(),
            current@ == segments(name@.subrange(0, i as int)).last(),
        decreases name.len() - i,
    {
        let ghost before = name@.subrange(0, i as int);
        let ghost after = name@.subrange(0, i + 1);
        proof {
            assert(after.drop_last() =~= before);
            assert(after.last() == name@[i as int]);
            lemma_segments(after);
        }
        let c = name[i];
        if c == 47u8 {
            let finished = current;
            current = Vec::new();
            done.push(finished);
            proof {
                let init = segments(before);
                assert(segments(after) == init.push(Seq::<u8>::empty()));
                assert(views(done@) =~= init.drop_last().push(finished@));
                assert(init.drop_last().push(init.last()) =~= init);
                assert(views(done@) =~= segments(after).drop_last());
                assert(current@ =~= segments(after).last());
            }
        } else {
            current.push(c);
            proof {
                let init = segments(before);
                assert(segments(after) == init.update(init.len() - 1, init.last().push(c)));
                assert(views(done@) =~= segments(after).drop_last());
                assert(current@ =~= segments(after).last());
            }
        }
        i = i + 1;
    }
    proof {
        assert(name@.subrange(0, name@.len() as int) =~= name@);
    }
    let ghost all = segments(name@);
    let ghost prev = views(done@);
    let ghost last = current@;
    assert(prev.push(last) =~= all);
    done.push(current);
    assert(views(done@) =~= prev.push(last));
    done
}

fn is_single_dot(segment: &Vec<u8>) -> (r: bool)
    ensures
        r == (segment@ == seq![46u8]),
{
    let r = segment.len() == 1 && segment[0] == 46u8;
    proof {
        if segment.len() == 1 {
            assert(r == (segment@ =~= seq![46u8]));
        } else {
            assert(seq![46u8].len() == 1);
        }
    }
    r
}

/// The segments that name components: empty and `.` segments are dropped.
pub fn kept_segments(segs: &Vec<Vec<u8>>) -> (r: Vec<Vec<u8>>)
    ensures
        views(r@) == views(segs@).filter(|s: Seq<u8>| kept_segment(s)),
{
    let ghost pred = |s: Seq<u8>| kept_segment(s);
    let mut parts: Vec<Vec<u8>> = Vec::new();
    let mut k: usize = 0;
    while k < segs.len()
        invariant
            k <= segs.len(),
            pred == (|s: Seq<u8>| kept_segment(s)),
            views(parts@) =~= views(segs@).subrange(0, k as int).filter(pred),
        decreases segs.len() - k,
    {
        let ghost before = views(segs@).subrange(0, k as int);
        let ghost after = views(segs@).subrange(0, k + 1);
        proof {
            assert(after.drop_last() =~= before);
            assert(after.last() == segs[k as int]@);
        }
        let keep = segs[k].len() > 0 && !is_single_dot(&segs[k]);
        proof {
            assert(pred(after.last()) == keep);
            reveal(Seq::filter);
            assert(after.filter(pred) == (if pred(after.last()) {
                before.filter(pred).push(after.last())
            } else {
                before.filter(pred)
            }));
        }
        if keep {
            let copy = segs[k].clone();
            proof {
                assert(copy@ =~= segs@[k as int]@);
            }
            parts.push(copy);
            proof {
                assert(views(parts@) =~= after.filter(pred));
            }
        }
        k = k + 1;
    }
    proof {
        assert(views(segs@).subrange(0, segs.len() as int) =~= views(segs@));
    }
    parts
}

/// The components of a storage name: it must be relative, with no `\` or `:`
/// in it, may not start at the root or with `.`, and loses empty and `.` components.
pub fn storage_path_parts(name: &[u8]) -> (r: Result<Vec<Vec<u8>>, StoreError>)
    ensures
        match r {
            Ok(parts) => spec_storage_parts(name@) == Ok::<Seq<Seq<u8>>, StoreError>(views(parts@)),
            Err(e) => spec_storage_parts(name@) == Err::<Seq<Seq<u8>>, StoreError>(e),
        },
{
    if name.len() == 0 || contains_byte(name, 92u8) || contains_byte(name, 58u8) {
        return Err(StoreError::NotRelativePath);
    }
    if name[0] == 47u8 {
        return Err(StoreError::InvalidPath);
    }
    let segs = split_segments(name);
    proof {
        lemma_segments(name@);
    }
    assert(segs@[0]@ == segments(name@)[0]);
    if is_single_dot(&segs[0]) {
        return Err(StoreError::InvalidPath);
    }
    let parts = kept_segments(&segs);
    Ok(parts)
}

/// Whether `name` starts with `.ab-worm`, ignoring ASCII letter case.
pub fn is_control_name(name: &[u8]) -> (r: bool)
    ensures
        r == has_control_prefix(name@),
{
    if name.len() < 8 {
        return false;
    }
    let prefix: [u8; 8] = [46u8, 97u8, 98u8, 45u8, 119u8, 111u8, 114u8, 109u8];
    assert(prefix@ =~= control_prefix());
    let mut i: usize = 0;
    while i < 8
        invariant
            name.len() >= 8,
            i <= 8,
            prefix@ == control_prefix(),
            forall|j: int| 0 <= j < i ==> #[trigger] ascii_lower(name@[j]) == control_prefix()[j],
        decreases 8 - i,
    {
        if to_ascii_lower(name[i]) != prefix[i] {
            assert(ascii_lower(name@[i as int]) != control_prefix()[i as int]);
            return false;
        }
        i = i + 1;
    }
    true
}

/// Checks one component of a storage path.
pub fn check_storage_component(component: &[u8]) -> (r: Result<(), StoreError>)
    ensures
        r == spec_storage_component(component@),
{
    let parent = component.len() == 2 && component[0] == 46u8 && component[1] == 46u8;
    proof {
        if component.len() == 2 {
            assert(parent == (component@ =~= seq![46u8, 46u8]));
        } else {
            assert(seq![46u8, 46u8].len() == 2);
        }
    }
    if parent {
        return Err(StoreError::InvalidPath);
    }
    if check_user_entry_name(component).is_err() {
        return Err(StoreError::ReservedEntryName);
    }
    if is_control_name(component) {
        return Err(StoreError::ReservedControlName);
    }
    Ok(())
}

/// The path of a data file's metadata entry: the complete path followed by `.meta`.
pub fn meta_path(path: &[u8]) -> (r: Vec<u8>)
    ensures
        r@ == path@ + meta_suffix(),
{
    let mut name: Vec<u8> = Vec::new();
    let mut i: usize = 0;
    while i < path.len()
        invariant
            i <= path.len(),
            name@ =~= path@.subrange(0, i as int),
        decreases path.len() - i,
    {
        name.push(path[i]);
        i = i + 1;
    }
    name.push(46u8);
    name.push(109u8);
    name.push(101u8);
    name.push(116u8);
    name.push(97u8);
    assert(name@ =~= path@ + meta_suffix());
    name
}

/// A storage path never leaves the store nor reaches its reserved entries:
/// every component it keeps is a plain name without a separator, and a
/// component that passes the check is neither `..`, nor a metadata name, nor
/// a control name.
pub proof fn law_storage_paths_stay_inside(name: Seq<u8>, component: Seq<u8>)
    ensures
        spec_storage_parts(name) matches Ok(parts) ==> forall|k: int|
            0 <= k < parts.len() ==> {
                &&& kept_segment(#[trigger] parts[k])
                &&& !parts[k].contains(47u8)
            },
        spec_storage_component(component) is Ok ==> {
            &&& component != seq![46u8, 46u8]
            &&& !is_invalid_name(component)
            &&& !has_meta_suffix(component)
            &&& !has_control_prefix(component)
        },
{
    lemma_segments(name);
    let pred = |s: Seq<u8>| kept_segment(s);
    if let Ok(parts) = spec_storage_parts(name) {
        assert forall|k: int| 0 <= k < parts.len() implies {
            &&& kept_segment(#[trigger] parts[k])
            &&& !parts[k].contains(47u8)
        } by {
            assert(pred(parts[k]));
            assert(segments(name).filter(pred).contains(parts[k]));
            segments(name).lemma_filter_contains_rev(pred, parts[k]);
            let j = choose|j: int| 0 <= j < segments(name).len() && segments(name)[j] == parts[k];
            assert(!segments(name)[j].contains(47u8));
        }
    }
}

/// `.ab-worm` at the start in any ASCII letter case, spelled out byte by byte.
pub proof fn lemma_control_prefix_bytes(n: Seq<u8>)
    ensures
        has_control_prefix(n) <==> {
            &&& n.len() >= 8
            &&& n[0] == 46u8
            &&& (n[1] == 97u8 || n[1] == 65u8)
            &&& (n[2] == 98u8 || n[2] == 66u8)
            &&& n[3] == 45u8
            &&& (n[4] == 119u8 || n[4] == 87u8)
            &&& (n[5] == 111u8 || n[5] == 79u8)
            &&& (n[6] == 114u8 || n[6] == 82u8)
            &&& (n[7] == 109u8 || n[7] == 77u8)
        },
{
    if n.len() >= 8 {
        if has_control_prefix(n) {
            assert(ascii_lower(n[0]) == control_prefix()[0]);
            assert(ascii_lower(n[1]) == control_prefix()[1]);
            assert(ascii_lower(n[2]) == control_prefix()[2]);
            assert(ascii_lower(n[3]) == control_prefix()[3]);
            assert(ascii_lower(n[4]) == control_prefix()[4]);
            assert(ascii_lower(n[5]) == control_prefix()[5]);
            assert(ascii_lower(n[6]) == control_prefix()[6]);
            assert(ascii_lower(n[7]) == control_prefix()[7]);
        }
        if n[0] == 46u8 && (n[1] == 97u8 || n[1] == 65u8) && (n[2] == 98u8 || n[2] == 66u8) && n[3]
            == 45u8 && (n[4] == 119u8 || n[4] == 87u8) && (n[5] == 111u8 || n[5] == 79u8) && (n[6]
            == 114u8 || n[6] == 82u8) && (n[7] == 109u8 || n[7] == 77u8) {
            assert forall|i: int| 0 <= i < 8 implies #[trigger] ascii_lower(n[i]) == control_prefix()[i] by {
                if i == 0 {
                } else if i == 1 {
                } else if i == 2 {
                } else if i == 3 {
                } else if i == 4 {
                } else if i == 5 {
                } else if i == 6 {
                } else {
                }
            }
        }
    }
}

/// A storage path component is refused only when it is `..`, a name users
/// cannot choose, or a control name (`.ab-worm` at the start in any ASCII
/// letter case); every other component is accepted.
pub proof fn law_storage_components_refused_only_when_reserved(component: Seq<u8>)
    ensures
        spec_storage_component(component) is Ok <==> {
            &&& component != seq![46u8, 46u8]
            &&& spec_user_entry_name(component) is Ok
            &&& !{
                &&& component.len() >= 8
                &&& component[0] == 46u8
                &&& (component[1] == 97u8 || component[1] == 65u8)
                &&& (component[2] == 98u8 || component[2] == 66u8)
                &&& component[3] == 45u8
                &&& (component[4] == 119u8 || component[4] == 87u8)
                &&& (component[5] == 111u8 || component[5] == 79u8)
                &&& (component[6] == 114u8 || component[6] == 82u8)
                &&& (component[7] == 109u8 || component[7] == 77u8)
            }
        },
{
    lemma_control_prefix_bytes(component);
}

} // verus!
