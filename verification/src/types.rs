use vstd::prelude::*;

verus! {

/// The bytes of a link tag.
pub struct LinkTag(pub Vec<u8>);

impl View for LinkTag {
    type V = Seq<u8>;

    open spec fn view(&self) -> Seq<u8> {
        self.0@
    }
}

/// One component of a path: arbitrary bytes.
pub struct Component(pub Vec<u8>);

impl View for Component {
    type V = Seq<u8>;

    open spec fn view(&self) -> Seq<u8> {
        self.0@
    }
}

/// A path: a sequence of components.
pub struct Path(pub Vec<Component>);

impl View for Path {
    type V = Seq<Seq<u8>>;

    open spec fn view(&self) -> Seq<Seq<u8>> {
        self.0@.map_values(|c: Component| c@)
    }
}

/// A hash as its raw bytes: the 3-byte type prefix, the 32-byte core and
/// the 4 location bytes.
pub struct HoloHash(pub Vec<u8>);

impl View for HoloHash {
    type V = Seq<u8>;

    open spec fn view(&self) -> Seq<u8> {
        self.0@
    }
}

/// Microseconds since the UNIX epoch, positive or negative.
#[derive(Clone, Copy, Debug, PartialEq, Eq, Structural)]
pub struct Timestamp(pub i64);

} // verus!
