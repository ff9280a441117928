//! The store of the PCR values of approved images.
use crate::ordered::TextMap;
use vstd::prelude::*;

verus! {

/// The config map that holds the store.
pub const PCR_CONFIG_MAP: &'static str = "image-pcrs";

/// The file in the config map that holds the store.
pub const PCR_CONFIG_FILE: &'static str = "image-pcrs.json";

/// The value of one platform configuration register.
pub struct Pcr {
    /// The number of the register.
    pub id: u64,
    /// The value, in hexadecimal notation.
    pub value: String,
    /// The JSON text of what else is recorded of the register. It is kept as it is.
    pub extra: String,
}

/// The contents of a `Pcr`.
#[verifier::ext_equal]
pub struct PcrView {
    pub id: u64,
    pub value: Seq<char>,
    pub extra: Seq<char>,
}

impl DeepView for Pcr {
    type V = PcrView;

    open spec fn deep_view(&self) -> PcrView {
        PcrView { id: self.id, value: self.value@, extra: self.extra@ }
    }
}

/// The PCR values of each approved image.
pub struct ImagePcrs(pub TextMap<Vec<Pcr>>);

impl View for ImagePcrs {
    type V = Map<Seq<char>, Seq<PcrView>>;

    open spec fn view(&self) -> Map<Seq<char>, Seq<PcrView>> {
        self.0@
    }
}

impl Default for ImagePcrs {
    /// No image is approved.
    fn default() -> (store: Self)
        ensures
            store@ == Map::<Seq<char>, Seq<PcrView>>::empty(),
    {
        ImagePcrs(TextMap::new())
    }
}

} // verus!
