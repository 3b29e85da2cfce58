//! Keeps [`StftSettingsExt`](crate::StftSettingsExt) from being implemented outside this crate.

use vstd::prelude::*;

use crate::settings::StftSettings;

verus! {

pub trait Sealed {

}

impl<T: StftSettings> Sealed for T {

}

} // verus!
