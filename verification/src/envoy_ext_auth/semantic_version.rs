use vstd::prelude::*;

verus! {

/// How a field lies on the wire.
#[derive(Debug, Clone, Copy, PartialEq, Eq, Structural)]
pub enum WireType {
    Varint,
    Fixed64,
    LengthDelimited,
    StartGroup,
    EndGroup,
    Fixed32,
}

/// What to do with a field that a message on the wire announces.
#[derive(Debug, Clone, Copy, PartialEq, Eq, Structural)]
pub enum FieldAction {
    /// Read a `uint32` and store it as this field.
    ReadNumber,
    /// The field is one of the version's, and does not lie on the wire as a
    /// number does: the message is malformed.
    UnexpectedWireType,
    /// The field is none of the version's: it is kept or skipped, not read.
    Unknown,
}

/// The number of bytes of a varint: one for every seven bits of the value.
pub open spec fn varint_size(value: nat) -> nat
    decreases value,
{
    if value < 128 {
        1
    } else {
        1 + varint_size(value / 128)
    }
}

/// The number of bytes of a `uint32` field on the wire: nothing for the
/// value 0, which is not written, else the tag and the value as varints.
pub open spec fn field_size(field_number: nat, value: u32) -> nat {
    if value == 0 {
        0
    } else {
        varint_size(field_number * 8 + 1) + varint_size(value as nat)
    }
}

/// A value of 32 bits takes at most five bytes as a varint.
pub proof fn lemma_varint_size_bound(value: nat)
    requires
        value <= u32::MAX,
    ensures
        1 <= varint_size(value) <= 5,
{
    reveal_with_fuel(varint_size, 6);
}

/// `protobuf::rt::value_size` for a field that is written as a varint: the
/// size of the tag, which is the varint of the field number shifted by three
/// bits with a wire type in them, and the size of the value as a varint.
#[verifier::external_body]
fn varint_field_size(field_number: u32, value: u32) -> (size: u32)
    requires
        0 < field_number <= 0x1fff_ffff,
    ensures
        size == varint_size(field_number as nat * 8 + 1) + varint_size(value as nat),
{
    protobuf::rt::value_size(field_number, value, protobuf::wire_format::WireType::WireTypeVarint)
}

/// A version in three numbers, as Envoy's `envoy.type.v3.SemanticVersion`
/// carries it.
#[derive(Debug, Clone, Copy, PartialEq, Eq, Structural)]
pub struct SemanticVersion {
    pub major_number: u32,
    pub minor_number: u32,
    pub patch: u32,
}

impl Default for SemanticVersion {
    fn default() -> (version: SemanticVersion)
        ensures
            version == (SemanticVersion { major_number: 0, minor_number: 0, patch: 0 }),
    {
        SemanticVersion { major_number: 0, minor_number: 0, patch: 0 }
    }
}

impl SemanticVersion {
    /// The version `0.0.0`.
    pub fn new() -> (version: SemanticVersion)
        ensures
            version == (SemanticVersion { major_number: 0, minor_number: 0, patch: 0 }),
    {
        SemanticVersion { major_number: 0, minor_number: 0, patch: 0 }
    }

    /// The major number.
    pub fn get_major_number(&self) -> (number: u32)
        ensures
            number == self.major_number,
    {
        self.major_number
    }

    /// Sets the major number to zero and leaves the others.
    pub fn clear_major_number(&mut self)
        ensures
            *final(self) == (SemanticVersion { major_number: 0, ..*old(self) }),
    {
        self.major_number = 0;
    }

    /// Sets the major number and leaves the others.
    pub fn set_major_number(&mut self, v: u32)
        ensures
            *final(self) == (SemanticVersion { major_number: v, ..*old(self) }),
    {
        self.major_number = v;
    }

    /// The minor number.
    pub fn get_minor_number(&self) -> (number: u32)
        ensures
            number == self.minor_number,
    {
        self.minor_number
    }

    /// Sets the minor number to zero and leaves the others.
    pub fn clear_minor_number(&mut self)
        ensures
            *final(self) == (SemanticVersion { minor_number: 0, ..*old(self) }),
    {
        self.minor_number = 0;
    }

    /// Sets the minor number and leaves the others.
    pub fn set_minor_number(&mut self, v: u32)
        ensures
            *final(self) == (SemanticVersion { minor_number: v, ..*old(self) }),
    {
        self.minor_number = v;
    }

    /// The patch number.
    pub fn get_patch(&self) -> (number: u32)
        ensures
            number == self.patch,
    {
        self.patch
    }

    /// Sets the patch number to zero and leaves the others.
    pub fn clear_patch(&mut self)
        ensures
            *final(self) == (SemanticVersion { patch: 0, ..*old(self) }),
    {
        self.patch = 0;
    }

    /// Sets the patch number and leaves the others.
    pub fn set_patch(&mut self, v: u32)
        ensures
            *final(self) == (SemanticVersion { patch: v, ..*old(self) }),
    {
        self.patch = v;
    }

    /// Sets the three numbers to zero.
    pub fn clear(&mut self)
        ensures
            *final(self) == (SemanticVersion { major_number: 0, minor_number: 0, patch: 0 }),
    {
        self.major_number = 0;
        self.minor_number = 0;
        self.patch = 0;
    }

    /// A message of this kind has no field that must be set.
    pub fn is_initialized(&self) -> (initialized: bool)
        ensures
            initialized,
    {
        true
    }

    /// The number of bytes of the version on the wire.
    pub open spec fn spec_compute_size(&self) -> nat {
        field_size(1, self.major_number) + field_size(2, self.minor_number) + field_size(
            3,
            self.patch,
        )
    }

    /// The fields that are written, each with its number: those that are
    /// not 0, in the order of their numbers.
    pub open spec fn spec_fields(&self) -> Seq<(u32, u32)> {
        let major = if self.major_number != 0 {
            seq![(1u32, self.major_number)]
        } else {
            Seq::empty()
        };
        let minor = if self.minor_number != 0 {
            seq![(2u32, self.minor_number)]
        } else {
            Seq::empty()
        };
        let patch = if self.patch != 0 {
            seq![(3u32, self.patch)]
        } else {
            Seq::empty()
        };
        major + minor + patch
    }

    /// What to do with a field of the given number and wire type.
    pub open spec fn spec_field_action(field_number: u32, wire_type: WireType) -> FieldAction {
        if 1 <= field_number <= 3 {
            if wire_type is Varint {
                FieldAction::ReadNumber
            } else {
                FieldAction::UnexpectedWireType
            }
        } else {
            FieldAction::Unknown
        }
    }

    /// The version with one field set. A number that is no field's changes
    /// nothing.
    pub open spec fn with_field(self, field_number: u32, value: u32) -> SemanticVersion {
        if field_number == 1 {
            SemanticVersion { major_number: value, ..self }
        } else if field_number == 2 {
            SemanticVersion { minor_number: value, ..self }
        } else if field_number == 3 {
            SemanticVersion { patch: value, ..self }
        } else {
            self
        }
    }

    /// The number of bytes of the version on the wire.
    pub fn compute_size(&self) -> (size: u32)
        ensures
            size == self.spec_compute_size(),
    {
        proof {
            lemma_varint_size_bound(self.major_number as nat);
            lemma_varint_size_bound(self.minor_number as nat);
            lemma_varint_size_bound(self.patch as nat);
            reveal_with_fuel(varint_size, 2);
        }
        let mut my_size: u32 = 0;
        if self.major_number != 0 {
            my_size = my_size + varint_field_size(1, self.major_number);
        }
        if self.minor_number != 0 {
            my_size = my_size + varint_field_size(2, self.minor_number);
        }
        if self.patch != 0 {
            my_size = my_size + varint_field_size(3, self.patch);
        }
        my_size
    }

    /// The fields to write, each with its number, in the order in which
    /// they are written.
    pub fn fields(&self) -> (fields: Vec<(u32, u32)>)
        ensures
            fields@ == self.spec_fields(),
    {
        let mut fields: Vec<(u32, u32)> = Vec::new();
        if self.major_number != 0 {
            fields.push((1, self.major_number));
        }
        if self.minor_number != 0 {
            fields.push((2, self.minor_number));
        }
        if self.patch != 0 {
            fields.push((3, self.patch));
        }
        assert(fields@ =~= self.spec_fields());
        fields
    }

    /// What to do with a field that a message on the wire announces.
    pub fn field_action(field_number: u32, wire_type: WireType) -> (action: FieldAction)
        ensures
            action == SemanticVersion::spec_field_action(field_number, wire_type),
    {
        if 1 <= field_number && field_number <= 3 {
            match wire_type {
                WireType::Varint => FieldAction::ReadNumber,
                _ => FieldAction::UnexpectedWireType,
            }
        } else {
            FieldAction::Unknown
        }
    }

    /// Stores a number that was read for a field.
    pub fn merge_field(&mut self, field_number: u32, value: u32)
        ensures
            *final(self) == old(self).with_field(field_number, value),
    {
        if field_number == 1 {
            self.major_number = value;
        } else if field_number == 2 {
            self.minor_number = value;
        } else if field_number == 3 {
            self.patch = value;
        }
    }
}

} // verus!
