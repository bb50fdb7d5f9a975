//! Unpacking the bundle: which entries of an archive may be unpacked at all.
//!
//! An entry is unpacked at its own path below the target directory. An entry
//! whose path leads out of that directory, by beginning at the root or by going
//! up too far, is an attack or a defect, and the archive that holds one is
//! refused as a whole.

use crate::error::BootstrapError;
use vstd::prelude::*;
use vstd::string::StringExecFns;

verus! {

/// The byte that separates the components of a path.
pub open spec fn separator() -> u8 {
    0x2f
}

/// The byte of which the components `.` and `..` are made.
pub open spec fn dot() -> u8 {
    0x2e
}

/// The components of a path: what stands between its separators. Every
/// separator ends one component and begins the next, so a path that begins with
/// a separator has an empty first component.
pub open spec fn components(path: Seq<u8>) -> Seq<Seq<u8>>
    decreases path.len(),
{
    if path.len() == 0 {
        seq![Seq::empty()]
    } else {
        let before = components(path.drop_last());
        if path.last() == separator() {
            before.push(Seq::empty())
        } else {
            before.drop_last().push(before.last().push(path.last()))
        }
    }
}

/// A component that names the directory it stands in: the empty one and `.`.
pub open spec fn stays(component: Seq<u8>) -> bool {
    component.len() == 0 || component == seq![dot()]
}

/// The component `..`, which names the directory above.
pub open spec fn ascends(component: Seq<u8>) -> bool {
    component == seq![dot(), dot()]
}

/// How many directories below the target a walk along `components` ends, or
/// nothing where the walk at some point stood in the target directory and went
/// up from there.
pub open spec fn depth_after(components: Seq<Seq<u8>>) -> Option<nat>
    decreases components.len(),
{
    if components.len() == 0 {
        Some(0)
    } else {
        descend(depth_after(components.drop_last()), components.last())
    }
}

/// One step of the walk.
pub open spec fn descend(depth: Option<nat>, component: Seq<u8>) -> Option<nat> {
    match depth {
        None => None,
        Some(depth) => if stays(component) {
            Some(depth)
        } else if ascends(component) {
            if depth == 0 {
                None
            } else {
                Some((depth - 1) as nat)
            }
        } else {
            Some(depth + 1)
        },
    }
}

/// The path begins at the root of the file system.
pub open spec fn rooted(path: Seq<u8>) -> bool {
    path.len() > 0 && path[0] == separator()
}

/// An entry's path leads out of the target directory: it begins at the root of
/// the file system, or a walk along it goes above the directory it started in.
/// A path that goes up and stays inside, such as `a/../b`, does not.
pub open spec fn escapes(path: Seq<u8>) -> bool {
    rooted(path) || depth_after(components(path)) is None
}

/// Whether the entry at `path` would be unpacked outside the target directory.
pub fn entry_escapes(path: &[u8]) -> (outside: bool)
    ensures
        outside == escapes(path@),
{
    let rooted = path.len() > 0 && path[0] == 0x2f;
    // The walk along the components that have ended, and of the one under way
    // its length and whether it is made of dots alone.
    let mut depth: Option<usize> = Some(0);
    let mut length: usize = 0;
    let mut dots: bool = true;
    let mut i: usize = 0;
    while i < path.len()
        invariant
            i <= path.len(),
            components(path@.take(i as int)).len() >= 1,
            length == components(path@.take(i as int)).last().len(),
            length <= i,
            dots == (forall|k: int|
                0 <= k < length ==> components(path@.take(i as int)).last()[k] == dot()),
            depth_of(depth) == depth_after(components(path@.take(i as int)).drop_last()),
            depth matches Some(d) ==> d + length <= i,
        decreases path.len() - i,
    {
        let ghost before = components(path@.take(i as int));
        let ghost after = components(path@.take(i + 1));
        assert(path@.take(i + 1).drop_last() =~= path@.take(i as int));
        let byte = path[i];
        if byte == 0x2f {
            assert(after.drop_last() =~= before);
            proof {
                lemma_component_kinds(before.last(), dots);
            }
            depth = step_down(depth, length, dots, Ghost(before.last()));
            length = 0;
            dots = true;
        } else {
            assert(after.drop_last() =~= before.drop_last());
            proof {
                let current = before.last();
                let grown = after.last();
                assert(grown =~= current.push(byte));
                if !dots {
                    let k = choose|k: int| 0 <= k < length && current[k] != dot();
                    assert(grown[k] == current[k]);
                } else if byte == dot() {
                    assert forall|k: int| 0 <= k < length + 1 implies grown[k] == dot() by {
                        if k < length {
                            assert(grown[k] == current[k]);
                        }
                    }
                } else {
                    assert(grown[length as int] == byte);
                }
            }
            if byte != 0x2e {
                dots = false;
            }
            length += 1;
        }
        i += 1;
    }
    assert(path@.take(path@.len() as int) =~= path@);
    let ghost all = components(path@);
    proof {
        lemma_component_kinds(all.last(), dots);
        assert(all =~= all.drop_last().push(all.last()));
    }
    let left = step_down(depth, length, dots, Ghost(all.last())).is_none();
    rooted || left
}

/// A component is told by its length and by whether it holds dots alone.
proof fn lemma_component_kinds(component: Seq<u8>, dots: bool)
    requires
        dots == (forall|k: int| 0 <= k < component.len() ==> component[k] == dot()),
    ensures
        stays(component) == (component.len() == 0 || (dots && component.len() == 1)),
        ascends(component) == (dots && component.len() == 2),
{
    if dots && component.len() == 1 {
        assert(component =~= seq![dot()]);
    }
    if dots && component.len() == 2 {
        assert(component =~= seq![dot(), dot()]);
    }
    if component == seq![dot()] {
        assert(component.len() == 1);
    }
    if component == seq![dot(), dot()] {
        assert(component.len() == 2);
    }
}

/// The depth of a walk as a number without bound.
pub open spec fn depth_of(depth: Option<usize>) -> Option<nat> {
    match depth {
        Some(d) => Some(d as nat),
        None => None,
    }
}

/// Takes the walk over a component of `length` bytes that has ended; `dots`
/// tells whether it is made of dots alone.
fn step_down(depth: Option<usize>, length: usize, dots: bool, Ghost(component): Ghost<
    Seq<u8>,
>) -> (next: Option<usize>)
    requires
        length == component.len(),
        stays(component) == (length == 0 || (dots && length == 1)),
        ascends(component) == (dots && length == 2),
        depth matches Some(d) ==> d + length <= usize::MAX,
    ensures
        depth_of(next) == descend(depth_of(depth), component),
        depth matches Some(d) ==> (next matches Some(n) ==> n <= d + length),
{
    match depth {
        None => None,
        Some(d) => {
            if length == 0 || (dots && length == 1) {
                Some(d)
            } else if dots && length == 2 {
                if d == 0 {
                    None
                } else {
                    Some(d - 1)
                }
            } else {
                Some(d + 1)
            }
        },
    }
}

/// Refuses an archive that holds an entry which leads out of the target
/// directory. `paths` are the paths of the archive's entries.
///
/// The check is on the paths alone. It does not follow links, and it does not
/// promise that an extractor unpacks every entry that passes.
pub fn check_entries(paths: &Vec<Vec<u8>>) -> (result: Result<(), BootstrapError>)
    ensures
        result is Ok <==> forall|i: int| 0 <= i < paths@.len() ==> !escapes(#[trigger] paths@[i]@),
        result matches Err(error) ==> {
            &&& error matches BootstrapError::Archive { detail }
            &&& detail@ == "archive entry leaves the target directory"@
        },
{
    let mut i: usize = 0;
    while i < paths.len()
        invariant
            i <= paths.len(),
            forall|k: int| 0 <= k < i ==> !escapes(#[trigger] paths@[k]@),
        decreases paths.len() - i,
    {
        if entry_escapes(paths[i].as_slice()) {
            return Err(
                BootstrapError::Archive {
                    detail: String::from_str("archive entry leaves the target directory"),
                },
            );
        }
        i += 1;
    }
    Ok(())
}

} // verus!
