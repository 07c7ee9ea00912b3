use vstd::prelude::*;

use crate::error::{NeuclidioError, RenderError};

verus! {

/// The check that a physical device offers every extension the engine needs.
pub struct DeviceExtensionSupport {}

/// Whether `names` holds `name`.
pub open spec fn has_name(names: Seq<Vec<u8>>, name: Seq<u8>) -> bool {
    exists|i: int| 0 <= i < names.len() && #[trigger] names[i]@ == name
}

fn bytes_equal(a: &Vec<u8>, b: &Vec<u8>) -> (r: bool)
    ensures
        r == (a@ == b@),
{
    if a.len() != b.len() {
        return false;
    }
    let mut i: usize = 0;
    while i < a.len()
        invariant
            a@.len() == b@.len(),
            i <= a@.len(),
            forall|j: int| 0 <= j < i ==> a@[j] == b@[j],
        decreases a@.len() - i,
    {
        if a[i] != b[i] {
            return false;
        }
        i = i + 1;
    }
    assert(a@ =~= b@);
    true
}

/// Whether `names` holds `name`.
pub(crate) fn contains_name(names: &[Vec<u8>], name: &Vec<u8>) -> (r: bool)
    ensures
        r == has_name(names@, name@),
{
    let mut i: usize = 0;
    while i < names.len()
        invariant
            i <= names@.len(),
            forall|j: int| 0 <= j < i ==> (#[trigger] names@[j])@ != name@,
        decreases names@.len() - i,
    {
        if bytes_equal(&names[i], name) {
            return true;
        }
        i = i + 1;
    }
    false
}

impl DeviceExtensionSupport {
    /// Succeeds when every required extension name is among the available ones (names
    /// compared as the bytes before their terminating NUL); fails with
    /// `MissingDeviceExtensions` otherwise.
    pub fn new(available_extensions: &[Vec<u8>], required_extensions: &[Vec<u8>]) -> (r: Result<(), NeuclidioError>)
        ensures
            r is Ok <==> forall|k: int|
                0 <= k < required_extensions@.len() ==> has_name(available_extensions@, #[trigger] required_extensions@[k]@),
            r is Err ==> r == Err::<(), NeuclidioError>(NeuclidioError::RenderError(RenderError::MissingDeviceExtensions)),
    {
        let mut k: usize = 0;
        while k < required_extensions.len()
            invariant
                k <= required_extensions@.len(),
                forall|j: int| 0 <= j < k ==> has_name(available_extensions@, #[trigger] required_extensions@[j]@),
            decreases required_extensions@.len() - k,
        {
            if !contains_name(available_extensions, &required_extensions[k]) {
                return Err(NeuclidioError::RenderError(RenderError::MissingDeviceExtensions));
            }
            k = k + 1;
        }
        Ok(())
    }
}

} // verus!
