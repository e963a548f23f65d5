//! Naming and user access policy for per-file metadata entries.
//!
//! Every data file `NAME` has a sibling read-only metadata entry `NAME.meta`.
//! Names are handled as their encoded bytes, so no byte encoding is changed.
use crate::policy::PolicyError;
use vstd::prelude::*;

verus! {

#[derive(Debug, Clone, Copy, PartialEq, Eq, Structural)]
pub enum MetadataOperation {
    Read,
    GetAttributes,
    Create,
    Write,
    Truncate,
    Delete,
    Rename,
    SetAttributes,
    CreateLink,
}

/// Users may only read a metadata entry and its attributes.
pub open spec fn spec_user_access(operation: MetadataOperation) -> Result<(), PolicyError> {
    match operation {
        MetadataOperation::Read | MetadataOperation::GetAttributes => Ok(()),
        _ => Err(PolicyError::ReadOnlyMetadata),
    }
}

/// Check operations issued by a user against a metadata entry.
/// Internal metadata updates use a separate storage path.
pub fn check_user_access(operation: MetadataOperation) -> (r: Result<(), PolicyError>)
    ensures
        r == spec_user_access(operation),
{
    match operation {
        MetadataOperation::Read | MetadataOperation::GetAttributes => Ok(()),
        _ => Err(PolicyError::ReadOnlyMetadata),
    }
}

/// The suffix that marks metadata entries: `.meta`.
pub open spec fn meta_suffix() -> Seq<u8> {
    seq![46u8, 109u8, 101u8, 116u8, 97u8]
}

/// ASCII lower-casing of one byte; other bytes are unchanged.
pub open spec fn ascii_lower(c: u8) -> u8 {
    if 65 <= c <= 90 {
        (c + 32) as u8
    } else {
        c
    }
}

/// A name that cannot be a single path component.
pub open spec fn is_invalid_name(name: Seq<u8>) -> bool {
    ||| name.len() == 0
    ||| name =~= seq![46u8]
    ||| name =~= seq![46u8, 46u8]
    ||| name.contains(47u8)
    ||| name.contains(0u8)
}

/// A name that ends with `.meta` in any ASCII letter case.
pub open spec fn has_meta_suffix(name: Seq<u8>) -> bool {
    &&& name.len() >= 5
    &&& forall|i: int| 0 <= i < 5 ==> #[trigger] ascii_lower(name[name.len() - 5 + i]) == meta_suffix()[i]
}

/// Which names users may give to their own files and directories.
pub open spec fn spec_user_entry_name(name: Seq<u8>) -> Result<(), PolicyError> {
    if is_invalid_name(name) {
        Err(PolicyError::InvalidName)
    } else if has_meta_suffix(name) {
        Err(PolicyError::ReservedName)
    } else {
        Ok(())
    }
}

/// The metadata name of a data file: its complete name followed by `.meta`.
pub open spec fn spec_name_for(data_name: Seq<u8>) -> Result<Seq<u8>, PolicyError> {
    match spec_user_entry_name(data_name) {
        Ok(()) => Ok(data_name + meta_suffix()),
        Err(e) => Err(e),
    }
}

/// Whether `bytes` holds `value`.
pub fn contains_byte(bytes: &[u8], value: u8) -> (r: bool)
    ensures
        r == bytes@.contains(value),
{
    let mut i: usize = 0;
    while i < bytes.len()
        invariant
            i <= bytes.len(),
            forall|j: int| 0 <= j < i ==> bytes@[j] != value,
        decreases bytes.len() - i,
    {
        if bytes[i] == value {
            assert(bytes@[i as int] == value);
            return true;
        }
        i = i + 1;
    }
    false
}

/// ASCII lower-casing of one byte.
pub fn to_ascii_lower(c: u8) -> (r: u8)
    ensures
        r == ascii_lower(c),
{
    if 65 <= c && c <= 90 {
        c + 32
    } else {
        c
    }
}

fn ends_with_meta(bytes: &[u8]) -> (r: bool)
    ensures
        r == has_meta_suffix(bytes@),
{
    let n = bytes.len();
    if n < 5 {
        return false;
    }
    let suffix: [u8; 5] = [46u8, 109u8, 101u8, 116u8, 97u8];
    assert(suffix@ =~= meta_suffix());
    let mut i: usize = 0;
    while i < 5
        invariant
            n == bytes.len(),
            n >= 5,
            i <= 5,
            suffix@ == meta_suffix(),
            forall|j: int| 0 <= j < i ==> #[trigger] ascii_lower(bytes@[n - 5 + j]) == meta_suffix()[j],
        decreases 5 - i,
    {
        if to_ascii_lower(bytes[n - 5 + i]) != suffix[i] {
            assert(ascii_lower(bytes@[n - 5 + i as int]) != meta_suffix()[i as int]);
            return false;
        }
        i = i + 1;
    }
    true
}

/// Reserve metadata names before creating a user file or directory.
pub fn check_user_entry_name(name: &[u8]) -> (r: Result<(), PolicyError>)
    ensures
        r == spec_user_entry_name(name@),
{
    let n = name.len();
    let dot: bool = n == 1 && name[0] == 46u8;
    let dot_dot: bool = n == 2 && name[0] == 46u8 && name[1] == 46u8;
    proof {
        if n == 1 {
            assert(dot == (name@ =~= seq![46u8]));
        } else {
            assert(!(name@ =~= seq![46u8])) by {
                assert(seq![46u8].len() == 1);
            }
        }
        if n == 2 {
            assert(dot_dot == (name@ =~= seq![46u8, 46u8]));
        } else {
            assert(!(name@ =~= seq![46u8, 46u8])) by {
                assert(seq![46u8, 46u8].len() == 2);
            }
        }
    }
    if n == 0 || dot || dot_dot || contains_byte(name, 47u8) || contains_byte(name, 0u8) {
        return Err(PolicyError::InvalidName);
    }
    if ends_with_meta(name) {
        return Err(PolicyError::ReservedName);
    }
    Ok(())
}

/// Derive the sibling metadata name, preserving the complete data filename.
pub fn name_for(data_name: &[u8]) -> (r: Result<Vec<u8>, PolicyError>)
    ensures
        match r {
            Ok(v) => spec_name_for(data_name@) == Ok::<Seq<u8>, PolicyError>(v@),
            Err(e) => spec_name_for(data_name@) == Err::<Seq<u8>, PolicyError>(e),
        },
{
    match check_user_entry_name(data_name) {
        Ok(()) => {},
        Err(e) => return Err(e),
    }
    let mut name: Vec<u8> = Vec::new();
    let mut i: usize = 0;
    while i < data_name.len()
        invariant
            i <= data_name.len(),
            name@ =~= data_name@.subrange(0, i as int),
        decreases data_name.len() - i,
    {
        name.push(data_name[i]);
        i = i + 1;
    }
    name.push(46u8);
    name.push(109u8);
    name.push(101u8);
    name.push(116u8);
    name.push(97u8);
    assert(name@ =~= data_name@ + meta_suffix());
    Ok(name)
}

/// Metadata names are reserved: the metadata name of any accepted data name
/// is itself refused as a user entry name, so users can never create, shadow
/// or replace a metadata entry.
pub proof fn law_metadata_names_are_reserved(data_name: Seq<u8>)
    requires
        spec_name_for(data_name) is Ok,
    ensures
        spec_user_entry_name(spec_name_for(data_name)->Ok_0)
            == Err::<(), PolicyError>(PolicyError::ReservedName),
{
    let m = data_name + meta_suffix();
    assert(m.len() >= 6);
    assert(!(m =~= seq![46u8])) by {
        assert(seq![46u8].len() == 1);
    }
    assert(!(m =~= seq![46u8, 46u8])) by {
        assert(seq![46u8, 46u8].len() == 2);
    }
    assert(!m.contains(47u8)) by {
        if m.contains(47u8) {
            let k = choose|k: int| 0 <= k < m.len() && m[k] == 47u8;
            if k < data_name.len() {
                assert(data_name[k] == 47u8);
                assert(data_name.contains(47u8));
            } else {
                assert(meta_suffix()[k - data_name.len()] == 47u8);
            }
        }
    }
    assert(!m.contains(0u8)) by {
        if m.contains(0u8) {
            let k = choose|k: int| 0 <= k < m.len() && m[k] == 0u8;
            if k < data_name.len() {
                assert(data_name[k] == 0u8);
                assert(data_name.contains(0u8));
            } else {
                assert(meta_suffix()[k - data_name.len()] == 0u8);
            }
        }
    }
    assert forall|i: int| 0 <= i < 5 implies #[trigger] ascii_lower(m[m.len() - 5 + i]) == meta_suffix()[i] by {
        assert(m[m.len() - 5 + i] == meta_suffix()[i]);
    }
}

/// A metadata name keeps the complete data name, so distinct data files have
/// distinct metadata entries.
pub proof fn law_metadata_names_are_distinct(a: Seq<u8>, b: Seq<u8>)
    requires
        spec_name_for(a) is Ok,
        spec_name_for(b) is Ok,
        a != b,
    ensures
        spec_name_for(a)->Ok_0 != spec_name_for(b)->Ok_0,
{
    let ma = a + meta_suffix();
    let mb = b + meta_suffix();
    if ma == mb {
        assert(ma.len() == mb.len());
        assert(a.len() == b.len());
        assert(a =~= ma.subrange(0, a.len() as int));
        assert(b =~= mb.subrange(0, b.len() as int));
    }
}

/// The only names users cannot choose: the empty name, `.`, `..`, names with
/// a `/` or NUL byte (all `InvalidName`), and names that end with `.meta` in
/// any ASCII letter case (`ReservedName`). Every other byte string, spaces,
/// dots, leading dots and non-ASCII bytes included, is accepted, and its
/// metadata name is the name followed by `.meta`.
pub proof fn law_user_names_are_free_but_for_paths_and_meta(name: Seq<u8>)
    ensures
        spec_user_entry_name(name) == Err::<(), PolicyError>(PolicyError::InvalidName) <==> {
            ||| name.len() == 0
            ||| name == seq![46u8]
            ||| name == seq![46u8, 46u8]
            ||| exists|i: int| 0 <= i < name.len() && (name[i] == 47u8 || name[i] == 0u8)
        },
        spec_user_entry_name(name) is Ok <==> {
            &&& name.len() > 0
            &&& name != seq![46u8]
            &&& name != seq![46u8, 46u8]
            &&& forall|i: int| 0 <= i < name.len() ==> name[i] != 47u8 && name[i] != 0u8
            &&& !{
                let n = name.len() as int;
                &&& n >= 5
                &&& name[n - 5] == 46u8
                &&& (name[n - 4] == 109u8 || name[n - 4] == 77u8)
                &&& (name[n - 3] == 101u8 || name[n - 3] == 69u8)
                &&& (name[n - 2] == 116u8 || name[n - 2] == 84u8)
                &&& (name[n - 1] == 97u8 || name[n - 1] == 65u8)
            }
        },
        spec_name_for(name) is Ok <==> spec_user_entry_name(name) is Ok,
        spec_name_for(name) is Ok ==> spec_name_for(name)->Ok_0 == name + seq![46u8, 109u8, 101u8, 116u8, 97u8],
{
    let n = name.len() as int;
    if name.contains(47u8) || name.contains(0u8) {
        let k = choose|k: int| 0 <= k < name.len() && (name[k] == 47u8 || name[k] == 0u8);
    }
    if exists|i: int| 0 <= i < name.len() && (name[i] == 47u8 || name[i] == 0u8) {
        let k = choose|i: int| 0 <= i < name.len() && (name[i] == 47u8 || name[i] == 0u8);
        if name[k] == 47u8 {
            assert(name.contains(47u8));
        } else {
            assert(name.contains(0u8));
        }
    }
    if n >= 5 {
        let explicit = {
            &&& name[n - 5] == 46u8
            &&& (name[n - 4] == 109u8 || name[n - 4] == 77u8)
            &&& (name[n - 3] == 101u8 || name[n - 3] == 69u8)
            &&& (name[n - 2] == 116u8 || name[n - 2] == 84u8)
            &&& (name[n - 1] == 97u8 || name[n - 1] == 65u8)
        };
        if has_meta_suffix(name) {
            assert(ascii_lower(name[n - 5 + 0]) == meta_suffix()[0]);
            assert(ascii_lower(name[n - 5 + 1]) == meta_suffix()[1]);
            assert(ascii_lower(name[n - 5 + 2]) == meta_suffix()[2]);
            assert(ascii_lower(name[n - 5 + 3]) == meta_suffix()[3]);
            assert(ascii_lower(name[n - 5 + 4]) == meta_suffix()[4]);
            assert(explicit);
        }
        if explicit {
            assert forall|i: int| 0 <= i < 5 implies #[trigger] ascii_lower(name[name.len() - 5 + i])
                == meta_suffix()[i] by {
                if i == 0 {
                } else if i == 1 {
                } else if i == 2 {
                } else if i == 3 {
                } else {
                }
            }
        }
    }
    assert((name == seq![46u8]) == (name =~= seq![46u8]));
    assert((name == seq![46u8, 46u8]) == (name =~= seq![46u8, 46u8]));
}

} // verus!
