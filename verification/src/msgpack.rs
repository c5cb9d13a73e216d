//! The shape of MessagePack: where each value begins, and how deep arrays and maps nest.
use vstd::prelude::*;

verus! {

/// The number that `width` bytes from `at` on stand for, the first the most significant.
pub open spec fn big_endian(bytes: Seq<u8>, at: int, width: nat) -> nat
    decreases width,
{
    if width == 0 {
        0
    } else {
        256 * big_endian(bytes, at, (width - 1) as nat) + bytes[at + width - 1] as nat
    }
}

/// Whether the value at `at` is a map.
pub open spec fn is_map(bytes: Seq<u8>, at: int) -> bool {
    let marker = bytes[at];
    0x80 <= marker <= 0x8f || marker == 0xde || marker == 0xdf
}

/// How many values stand within the array or map at `at`: the keys of a map count too. Nothing
/// where the value there is neither.
pub open spec fn values_within(bytes: Seq<u8>, at: int) -> Option<nat> {
    let marker = bytes[at];
    if 0x80 <= marker <= 0x8f {
        Some(2 * (marker - 0x80) as nat)
    } else if 0x90 <= marker <= 0x9f {
        Some((marker - 0x90) as nat)
    } else if marker == 0xdc {
        Some(big_endian(bytes, at + 1, 2))
    } else if marker == 0xdd {
        Some(big_endian(bytes, at + 1, 4))
    } else if marker == 0xde {
        Some(2 * big_endian(bytes, at + 1, 2))
    } else if marker == 0xdf {
        Some(2 * big_endian(bytes, at + 1, 4))
    } else {
        None
    }
}

/// How many bytes the value at `at` takes: its marker, its length where that is written out, and
/// its data, but not the values within it.
pub open spec fn own_length(bytes: Seq<u8>, at: int) -> nat {
    let marker = bytes[at];
    // Strings, whose length is part of the marker.
    if 0xa0 <= marker <= 0xbf {
        1 + (marker - 0xa0) as nat
    // Strings and binary data, the length in one, two and four bytes.
    } else if marker == 0xd9 || marker == 0xc4 {
        2 + big_endian(bytes, at + 1, 1)
    } else if marker == 0xda || marker == 0xc5 {
        3 + big_endian(bytes, at + 1, 2)
    } else if marker == 0xdb || marker == 0xc6 {
        5 + big_endian(bytes, at + 1, 4)
    // Extensions, which have a byte for their type.
    } else if marker == 0xc7 {
        3 + big_endian(bytes, at + 1, 1)
    } else if marker == 0xc8 {
        4 + big_endian(bytes, at + 1, 2)
    } else if marker == 0xc9 {
        6 + big_endian(bytes, at + 1, 4)
    } else if marker == 0xd4 {
        3
    } else if marker == 0xd5 {
        4
    } else if marker == 0xd6 {
        6
    } else if marker == 0xd7 {
        10
    } else if marker == 0xd8 {
        18
    // Numbers of one, two, four and eight bytes.
    } else if marker == 0xcc || marker == 0xd0 {
        2
    } else if marker == 0xcd || marker == 0xd1 {
        3
    } else if marker == 0xce || marker == 0xd2 || marker == 0xca {
        5
    } else if marker == 0xcf || marker == 0xd3 || marker == 0xcb {
        9
    // Arrays and maps, how much is in them in two and four bytes.
    } else if marker == 0xdc || marker == 0xde {
        3
    } else if marker == 0xdd || marker == 0xdf {
        5
    // Nothing, truth values, and small numbers, arrays and maps.
    } else {
        1
    }
}

/// How far bytes have been read.
pub struct Reading {
    /// Where the next value begins.
    pub at: int,
    /// How many values are still to come: outermost that of the whole, then within each array and
    /// map that is open.
    pub left: Seq<nat>,
}

/// What is left, once that which has no more values to come is closed.
pub open spec fn still_open(left: Seq<nat>) -> Seq<nat>
    decreases left.len(),
{
    if left.len() > 0 && left.last() == 0 {
        still_open(left.drop_last())
    } else {
        left
    }
}

impl Reading {
    /// Nothing has been read yet, and one value is to come.
    pub open spec fn start() -> Reading {
        Reading { at: 0, left: seq![1] }
    }

    /// Whether another value is to come and there are bytes for it.
    pub open spec fn goes_on(self, bytes: Seq<u8>) -> bool {
        0 <= self.at < bytes.len() && still_open(self.left).len() > 0
    }

    /// How far the bytes have been read once the marker and the data of the next value have.
    pub open spec fn next(self, bytes: Seq<u8>) -> Reading {
        let open = still_open(self.left);
        let counted = open.drop_last().push((open.last() - 1) as nat);
        Reading {
            at: self.at + own_length(bytes, self.at),
            left: match values_within(bytes, self.at) {
                Some(values) => counted.push(values),
                None => counted,
            },
        }
    }

    /// How many bytes are still to be read.
    pub open spec fn bytes_left(self, bytes: Seq<u8>) -> int {
        if self.at < bytes.len() {
            bytes.len() - self.at
        } else {
            0
        }
    }

    /// How many arrays and maps are open.
    pub open spec fn depth(self) -> nat {
        (self.left.len() - 1) as nat
    }
}

/// The most arrays and maps that are open at once from here on.
pub open spec fn nesting_from(bytes: Seq<u8>, reading: Reading) -> nat
    decreases reading.bytes_left(bytes),
{
    if reading.goes_on(bytes) {
        let next = reading.next(bytes);
        let later = nesting_from(bytes, next);
        if next.depth() > later {
            next.depth()
        } else {
            later
        }
    } else {
        0
    }
}

/// The most arrays and maps that are open at once in the value that the bytes begin with.
pub open spec fn nesting(bytes: Seq<u8>) -> nat {
    nesting_from(bytes, Reading::start())
}

/// The key by which `serde_json` marks JSON text that it passes on unread.
///
/// A map that begins with it is read as that text, not as a map.
pub open spec fn marker_key() -> Seq<char> {
    "$serde_json::private::RawValue"@
}

/// Whether the string at `at` is the marker key. Its length is part of the MessagePack marker.
pub open spec fn is_marker_key(bytes: Seq<u8>, at: int) -> bool {
    &&& 0 <= at < bytes.len() - marker_key().len()
    &&& bytes[at] == 0xa0 + marker_key().len()
    &&& forall|i: int|
        0 <= i < marker_key().len() ==> bytes[at + 1 + i] as int == #[trigger] marker_key()[i] as int
}

/// Whether no map begins with the marker key from here on.
pub open spec fn free_of_marker_from(bytes: Seq<u8>, reading: Reading) -> bool
    decreases reading.bytes_left(bytes),
{
    reading.goes_on(bytes) ==> {
        let next = reading.next(bytes);
        &&& !(is_map(bytes, reading.at) && next.left.last() > 0 && is_marker_key(bytes, next.at))
        &&& free_of_marker_from(bytes, next)
    }
}

/// Whether no map begins with the marker key in the value that the bytes begin with.
pub open spec fn free_of_marker(bytes: Seq<u8>) -> bool {
    free_of_marker_from(bytes, Reading::start())
}

} // verus!
