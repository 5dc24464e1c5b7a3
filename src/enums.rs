//! Enumerations shared by the codecs and the catalogs, with their integer
//! and character codes. Codes that come from records decode leniently to a
//! default variant; codes of settings decode to `None` when unknown.

use vstd::prelude::*;

verus! {

/// How a catalog forms the key of an inserted record.
#[derive(Debug, Clone, Copy, PartialEq, Eq, Structural)]
pub enum KeyMode {
    /// A record with the identity of a live record maps to that record's key.
    NoDuplicates,
    /// Every insert takes a fresh positional key.
    DirectMemoryAccess,
}

impl KeyMode {
    /// The integer code of the variant.
    pub open spec fn spec_code(self) -> i32 {
        match self {
            KeyMode::NoDuplicates => 0,
            KeyMode::DirectMemoryAccess => 1,
        }
    }

    /// The variant whose code is `c`, if any.
    pub open spec fn spec_from_code(c: i32) -> Option<KeyMode> {
        if c == 0 {
            Some(KeyMode::NoDuplicates)
        } else if c == 1 {
            Some(KeyMode::DirectMemoryAccess)
        } else {
            None
        }
    }

    pub fn code(self) -> (r: i32)
        ensures
            r == self.spec_code(),
            KeyMode::spec_from_code(r) == Some(self),
    {
        match self {
            KeyMode::NoDuplicates => 0,
            KeyMode::DirectMemoryAccess => 1,
        }
    }

    pub fn from_code(c: i32) -> (r: Option<KeyMode>)
        ensures
            r == KeyMode::spec_from_code(c),
            r matches Some(m) ==> m.spec_code() == c,
    {
        if c == 0 {
            Some(KeyMode::NoDuplicates)
        } else if c == 1 {
            Some(KeyMode::DirectMemoryAccess)
        } else {
            None
        }
    }
}

/// What an insert does when the key it maps to is already live.
#[derive(Debug, Clone, Copy, PartialEq, Eq, Structural)]
pub enum DuplicateKeyMode {
    /// The insert is refused and the catalog is left as it was.
    ReturnZero,
    /// The live record is replaced and its key is returned.
    ReturnKey,
}

impl DuplicateKeyMode {
    /// The integer code of the variant.
    pub open spec fn spec_code(self) -> i32 {
        match self {
            DuplicateKeyMode::ReturnZero => 0,
            DuplicateKeyMode::ReturnKey => 1,
        }
    }

    /// The variant whose code is `c`, if any.
    pub open spec fn spec_from_code(c: i32) -> Option<DuplicateKeyMode> {
        if c == 0 {
            Some(DuplicateKeyMode::ReturnZero)
        } else if c == 1 {
            Some(DuplicateKeyMode::ReturnKey)
        } else {
            None
        }
    }

    pub fn code(self) -> (r: i32)
        ensures
            r == self.spec_code(),
            DuplicateKeyMode::spec_from_code(r) == Some(self),
    {
        match self {
            DuplicateKeyMode::ReturnZero => 0,
            DuplicateKeyMode::ReturnKey => 1,
        }
    }

    pub fn from_code(c: i32) -> (r: Option<DuplicateKeyMode>)
        ensures
            r == DuplicateKeyMode::spec_from_code(c),
            r matches Some(m) ==> m.spec_code() == c,
    {
        if c == 0 {
            Some(DuplicateKeyMode::ReturnZero)
        } else if c == 1 {
            Some(DuplicateKeyMode::ReturnKey)
        } else {
            None
        }
    }
}

/// How the element-set catalog forms keys.
#[derive(Debug, Clone, Copy, PartialEq, Eq, Structural)]
pub enum ElsetKeyMode {
    NoDuplicates,
    DirectMemoryAccess,
}

impl ElsetKeyMode {
    /// The integer code of the variant.
    pub open spec fn spec_code(self) -> i32 {
        match self {
            ElsetKeyMode::NoDuplicates => 0,
            ElsetKeyMode::DirectMemoryAccess => 1,
        }
    }

    /// The variant whose code is `c`, if any.
    pub open spec fn spec_from_code(c: i32) -> Option<ElsetKeyMode> {
        if c == 0 {
            Some(ElsetKeyMode::NoDuplicates)
        } else if c == 1 {
            Some(ElsetKeyMode::DirectMemoryAccess)
        } else {
            None
        }
    }

    pub fn code(self) -> (r: i32)
        ensures
            r == self.spec_code(),
            ElsetKeyMode::spec_from_code(r) == Some(self),
    {
        match self {
            ElsetKeyMode::NoDuplicates => 0,
            ElsetKeyMode::DirectMemoryAccess => 1,
        }
    }

    pub fn from_code(c: i32) -> (r: Option<ElsetKeyMode>)
        ensures
            r == ElsetKeyMode::spec_from_code(c),
            r matches Some(m) ==> m.spec_code() == c,
    {
        if c == 0 {
            Some(ElsetKeyMode::NoDuplicates)
        } else if c == 1 {
            Some(ElsetKeyMode::DirectMemoryAccess)
        } else {
            None
        }
    }
}

/// The kind of an element set.
#[derive(Debug, Clone, Copy, PartialEq, Eq, Structural)]
pub enum ElementType {
    TwoLineSGP,
    TwoLineSGP4,
    TwoLineSP,
    SPVector,
    VCM,
    Ephemeris,
    TwoLineXP,
}

impl ElementType {
    /// The integer code of the variant.
    pub open spec fn spec_code(self) -> i32 {
        match self {
            ElementType::TwoLineSGP => 1,
            ElementType::TwoLineSGP4 => 2,
            ElementType::TwoLineSP => 3,
            ElementType::SPVector => 4,
            ElementType::VCM => 5,
            ElementType::Ephemeris => 6,
            ElementType::TwoLineXP => 7,
        }
    }

    /// The variant whose code is `c`, if any.
    pub open spec fn spec_from_code(c: i32) -> Option<ElementType> {
        if c == 1 {
            Some(ElementType::TwoLineSGP)
        } else if c == 2 {
            Some(ElementType::TwoLineSGP4)
        } else if c == 3 {
            Some(ElementType::TwoLineSP)
        } else if c == 4 {
            Some(ElementType::SPVector)
        } else if c == 5 {
            Some(ElementType::VCM)
        } else if c == 6 {
            Some(ElementType::Ephemeris)
        } else if c == 7 {
            Some(ElementType::TwoLineXP)
        } else {
            None
        }
    }

    pub fn code(self) -> (r: i32)
        ensures
            r == self.spec_code(),
            ElementType::spec_from_code(r) == Some(self),
    {
        match self {
            ElementType::TwoLineSGP => 1,
            ElementType::TwoLineSGP4 => 2,
            ElementType::TwoLineSP => 3,
            ElementType::SPVector => 4,
            ElementType::VCM => 5,
            ElementType::Ephemeris => 6,
            ElementType::TwoLineXP => 7,
        }
    }

    pub fn from_code(c: i32) -> (r: Option<ElementType>)
        ensures
            r == ElementType::spec_from_code(c),
            r matches Some(m) ==> m.spec_code() == c,
    {
        if c == 1 {
            Some(ElementType::TwoLineSGP)
        } else if c == 2 {
            Some(ElementType::TwoLineSGP4)
        } else if c == 3 {
            Some(ElementType::TwoLineSP)
        } else if c == 4 {
            Some(ElementType::SPVector)
        } else if c == 5 {
            Some(ElementType::VCM)
        } else if c == 6 {
            Some(ElementType::Ephemeris)
        } else if c == 7 {
            Some(ElementType::TwoLineXP)
        } else {
            None
        }
    }
}

/// The fundamental star catalog in use.
#[derive(Debug, Clone, Copy, PartialEq, Eq, Structural)]
pub enum FundamentalCatalog {
    Four,
    Five,
}

impl FundamentalCatalog {
    /// The integer code of the variant.
    pub open spec fn spec_code(self) -> i32 {
        match self {
            FundamentalCatalog::Four => 4,
            FundamentalCatalog::Five => 5,
        }
    }

    /// The variant whose code is `c`, if any.
    pub open spec fn spec_from_code(c: i32) -> Option<FundamentalCatalog> {
        if c == 4 {
            Some(FundamentalCatalog::Four)
        } else if c == 5 {
            Some(FundamentalCatalog::Five)
        } else {
            None
        }
    }

    pub fn code(self) -> (r: i32)
        ensures
            r == self.spec_code(),
            FundamentalCatalog::spec_from_code(r) == Some(self),
    {
        match self {
            FundamentalCatalog::Four => 4,
            FundamentalCatalog::Five => 5,
        }
    }

    pub fn from_code(c: i32) -> (r: Option<FundamentalCatalog>)
        ensures
            r == FundamentalCatalog::spec_from_code(c),
            r matches Some(m) ==> m.spec_code() == c,
    {
        if c == 4 {
            Some(FundamentalCatalog::Four)
        } else if c == 5 {
            Some(FundamentalCatalog::Five)
        } else {
            None
        }
    }
}

/// The Earth gravity model in use.
#[derive(Debug, Clone, Copy, PartialEq, Eq, Structural)]
pub enum GeopotentialModel {
    WGS72,
    WGS84,
    EGM96,
    EGM08,
}

impl GeopotentialModel {
    /// The integer code of the variant.
    pub open spec fn spec_code(self) -> i32 {
        match self {
            GeopotentialModel::WGS72 => 72,
            GeopotentialModel::WGS84 => 84,
            GeopotentialModel::EGM96 => 96,
            GeopotentialModel::EGM08 => 8,
        }
    }

    /// The variant whose code is `c`, if any.
    pub open spec fn spec_from_code(c: i32) -> Option<GeopotentialModel> {
        if c == 72 {
            Some(GeopotentialModel::WGS72)
        } else if c == 84 {
            Some(GeopotentialModel::WGS84)
        } else if c == 96 {
            Some(GeopotentialModel::EGM96)
        } else if c == 8 {
            Some(GeopotentialModel::EGM08)
        } else {
            None
        }
    }

    pub fn code(self) -> (r: i32)
        ensures
            r == self.spec_code(),
            GeopotentialModel::spec_from_code(r) == Some(self),
    {
        match self {
            GeopotentialModel::WGS72 => 72,
            GeopotentialModel::WGS84 => 84,
            GeopotentialModel::EGM96 => 96,
            GeopotentialModel::EGM08 => 8,
        }
    }

    pub fn from_code(c: i32) -> (r: Option<GeopotentialModel>)
        ensures
            r == GeopotentialModel::spec_from_code(c),
            r matches Some(m) ==> m.spec_code() == c,
    {
        if c == 72 {
            Some(GeopotentialModel::WGS72)
        } else if c == 84 {
            Some(GeopotentialModel::WGS84)
        } else if c == 96 {
            Some(GeopotentialModel::EGM96)
        } else if c == 8 {
            Some(GeopotentialModel::EGM08)
        } else {
            None
        }
    }
}

/// The order in which a catalog lists its keys.
#[derive(Debug, Clone, Copy, PartialEq, Eq, Structural)]
pub enum KeyOrder {
    /// Increasing keys.
    Ascending,
    /// Decreasing keys.
    Descending,
    /// Whatever order is cheapest; callers may rely on none.
    Fastest,
    /// The order in which the records were inserted.
    LoadTime,
}

impl KeyOrder {
    /// The integer code of the variant.
    pub open spec fn spec_code(self) -> i32 {
        match self {
            KeyOrder::Ascending => 0,
            KeyOrder::Descending => 1,
            KeyOrder::Fastest => 9,
            KeyOrder::LoadTime => 2,
        }
    }

    /// The variant whose code is `c`, if any.
    pub open spec fn spec_from_code(c: i32) -> Option<KeyOrder> {
        if c == 0 {
            Some(KeyOrder::Ascending)
        } else if c == 1 {
            Some(KeyOrder::Descending)
        } else if c == 9 {
            Some(KeyOrder::Fastest)
        } else if c == 2 {
            Some(KeyOrder::LoadTime)
        } else {
            None
        }
    }

    pub fn code(self) -> (r: i32)
        ensures
            r == self.spec_code(),
            KeyOrder::spec_from_code(r) == Some(self),
    {
        match self {
            KeyOrder::Ascending => 0,
            KeyOrder::Descending => 1,
            KeyOrder::Fastest => 9,
            KeyOrder::LoadTime => 2,
        }
    }

    pub fn from_code(c: i32) -> (r: Option<KeyOrder>)
        ensures
            r == KeyOrder::spec_from_code(c),
            r matches Some(m) ==> m.spec_code() == c,
    {
        if c == 0 {
            Some(KeyOrder::Ascending)
        } else if c == 1 {
            Some(KeyOrder::Descending)
        } else if c == 9 {
            Some(KeyOrder::Fastest)
        } else if c == 2 {
            Some(KeyOrder::LoadTime)
        } else {
            None
        }
    }
}

/// The reference frame of propagated ephemerides.
#[derive(Debug, Clone, Copy, PartialEq, Eq, Structural)]
pub enum SGP4OutputEphemerisFrame {
    TEME,
    J2000,
}

impl SGP4OutputEphemerisFrame {
    /// The integer code of the variant.
    pub open spec fn spec_code(self) -> i32 {
        match self {
            SGP4OutputEphemerisFrame::TEME => 1,
            SGP4OutputEphemerisFrame::J2000 => 2,
        }
    }

    /// The variant whose code is `c`, if any.
    pub open spec fn spec_from_code(c: i32) -> Option<SGP4OutputEphemerisFrame> {
        if c == 1 {
            Some(SGP4OutputEphemerisFrame::TEME)
        } else if c == 2 {
            Some(SGP4OutputEphemerisFrame::J2000)
        } else {
            None
        }
    }

    pub fn code(self) -> (r: i32)
        ensures
            r == self.spec_code(),
            SGP4OutputEphemerisFrame::spec_from_code(r) == Some(self),
    {
        match self {
            SGP4OutputEphemerisFrame::TEME => 1,
            SGP4OutputEphemerisFrame::J2000 => 2,
        }
    }

    pub fn from_code(c: i32) -> (r: Option<SGP4OutputEphemerisFrame>)
        ensures
            r == SGP4OutputEphemerisFrame::spec_from_code(c),
            r matches Some(m) ==> m.spec_code() == c,
    {
        if c == 1 {
            Some(SGP4OutputEphemerisFrame::TEME)
        } else if c == 2 {
            Some(SGP4OutputEphemerisFrame::J2000)
        } else {
            None
        }
    }
}

/// The frame of UVW covariance.
#[derive(Debug, Clone, Copy, PartialEq, Eq, Structural)]
pub enum UVWType {
    Inertial,
}

impl UVWType {
    /// The integer code of the variant.
    pub open spec fn spec_code(self) -> i32 {
        match self {
            UVWType::Inertial => 1,
        }
    }

    /// The variant whose code is `c`, if any.
    pub open spec fn spec_from_code(c: i32) -> Option<UVWType> {
        if c == 1 {
            Some(UVWType::Inertial)
        } else {
            None
        }
    }

    pub fn code(self) -> (r: i32)
        ensures
            r == self.spec_code(),
            UVWType::spec_from_code(r) == Some(self),
    {
        match self {
            UVWType::Inertial => 1,
        }
    }

    pub fn from_code(c: i32) -> (r: Option<UVWType>)
        ensures
            r == UVWType::spec_from_code(c),
            r matches Some(m) ==> m.spec_code() == c,
    {
        if c == 1 {
            Some(UVWType::Inertial)
        } else {
            None
        }
    }
}

/// The model family of a two-line element set, written as its code digit in
/// the type-marker column.
#[derive(Debug, Clone, Copy, PartialEq, Eq, Structural)]
pub enum TLEType {
    SGP,
    SGP4,
    SP,
    XP,
}

impl TLEType {
    /// The integer code of the variant.
    pub open spec fn spec_code(self) -> i32 {
        match self {
            TLEType::SGP => 0,
            TLEType::SGP4 => 2,
            TLEType::SP => 6,
            TLEType::XP => 4,
        }
    }

    /// The variant written as `c`; an unknown code reads as `SGP4`.
    pub open spec fn spec_from_code(c: i32) -> TLEType {
        if c == 0 {
            TLEType::SGP
        } else if c == 2 {
            TLEType::SGP4
        } else if c == 6 {
            TLEType::SP
        } else if c == 4 {
            TLEType::XP
        } else {
            TLEType::SGP4
        }
    }

    pub fn code(self) -> (r: i32)
        ensures
            r == self.spec_code(),
            TLEType::spec_from_code(r) == self,
    {
        match self {
            TLEType::SGP => 0,
            TLEType::SGP4 => 2,
            TLEType::SP => 6,
            TLEType::XP => 4,
        }
    }

    pub fn from_code(c: i32) -> (r: TLEType)
        ensures
            r == TLEType::spec_from_code(c),
    {
        if c == 0 {
            TLEType::SGP
        } else if c == 2 {
            TLEType::SGP4
        } else if c == 6 {
            TLEType::SP
        } else if c == 4 {
            TLEType::XP
        } else {
            TLEType::SGP4
        }
    }
}

/// The security classification of a record, written as one letter.
#[derive(Debug, Clone, Copy, PartialEq, Eq, Structural)]
pub enum Classification {
    /// `U` (ASCII 85).
    Unclassified,
    /// `C` (ASCII 67).
    Confidential,
    /// `S` (ASCII 83).
    Secret,
}

impl Classification {
    /// The ASCII code of the character the variant is written as.
    pub open spec fn spec_byte(self) -> u8 {
        match self {
            Classification::Unclassified => 85,
            Classification::Confidential => 67,
            Classification::Secret => 83,
        }
    }

    /// The variant written as `c`; an unknown code reads as `Unclassified`.
    pub open spec fn spec_from_byte(c: u8) -> Classification {
        if c == 85 {
            Classification::Unclassified
        } else if c == 67 {
            Classification::Confidential
        } else if c == 83 {
            Classification::Secret
        } else {
            Classification::Unclassified
        }
    }

    pub fn to_byte(self) -> (r: u8)
        ensures
            r == self.spec_byte(),
            Classification::spec_from_byte(r) == self,
    {
        match self {
            Classification::Unclassified => 85,
            Classification::Confidential => 67,
            Classification::Secret => 83,
        }
    }

    pub fn from_byte(c: u8) -> (r: Classification)
        ensures
            r == Classification::spec_from_byte(c),
    {
        if c == 85 {
            Classification::Unclassified
        } else if c == 67 {
            Classification::Confidential
        } else if c == 83 {
            Classification::Secret
        } else {
            Classification::Unclassified
        }
    }
}

/// The observation type of a B3 card, written as one digit (ASCII 48 for
/// `0` up to 57 for `9`).
#[derive(Debug, Clone, Copy, PartialEq, Eq, Structural)]
pub enum B3Type {
    Zero,
    One,
    Two,
    Three,
    Four,
    Five,
    Six,
    Eight,
    Nine,
}

impl B3Type {
    /// The ASCII code of the character the variant is written as.
    pub open spec fn spec_byte(self) -> u8 {
        match self {
            B3Type::Zero => 48,
            B3Type::One => 49,
            B3Type::Two => 50,
            B3Type::Three => 51,
            B3Type::Four => 52,
            B3Type::Five => 53,
            B3Type::Six => 54,
            B3Type::Eight => 56,
            B3Type::Nine => 57,
        }
    }

    /// The variant written as `c`; an unknown code reads as `Five`.
    pub open spec fn spec_from_byte(c: u8) -> B3Type {
        if c == 48 {
            B3Type::Zero
        } else if c == 49 {
            B3Type::One
        } else if c == 50 {
            B3Type::Two
        } else if c == 51 {
            B3Type::Three
        } else if c == 52 {
            B3Type::Four
        } else if c == 53 {
            B3Type::Five
        } else if c == 54 {
            B3Type::Six
        } else if c == 56 {
            B3Type::Eight
        } else if c == 57 {
            B3Type::Nine
        } else {
            B3Type::Five
        }
    }

    pub fn to_byte(self) -> (r: u8)
        ensures
            r == self.spec_byte(),
            B3Type::spec_from_byte(r) == self,
    {
        match self {
            B3Type::Zero => 48,
            B3Type::One => 49,
            B3Type::Two => 50,
            B3Type::Three => 51,
            B3Type::Four => 52,
            B3Type::Five => 53,
            B3Type::Six => 54,
            B3Type::Eight => 56,
            B3Type::Nine => 57,
        }
    }

    pub fn from_byte(c: u8) -> (r: B3Type)
        ensures
            r == B3Type::spec_from_byte(c),
    {
        if c == 48 {
            B3Type::Zero
        } else if c == 49 {
            B3Type::One
        } else if c == 50 {
            B3Type::Two
        } else if c == 51 {
            B3Type::Three
        } else if c == 52 {
            B3Type::Four
        } else if c == 53 {
            B3Type::Five
        } else if c == 54 {
            B3Type::Six
        } else if c == 56 {
            B3Type::Eight
        } else if c == 57 {
            B3Type::Nine
        } else {
            B3Type::Five
        }
    }
}

/// The equinox that observed angles refer to.
#[derive(Debug, Clone, Copy, PartialEq, Eq, Structural)]
pub enum MeanEquinox {
    Date,
    Year,
    J2000,
    B1950,
}

impl MeanEquinox {
    /// The integer code of the variant.
    pub open spec fn spec_code(self) -> i32 {
        match self {
            MeanEquinox::Date => 0,
            MeanEquinox::Year => 1,
            MeanEquinox::J2000 => 2,
            MeanEquinox::B1950 => 3,
        }
    }

    /// The variant written as `c`; an unknown code reads as `J2000`.
    pub open spec fn spec_from_code(c: i32) -> MeanEquinox {
        if c == 0 {
            MeanEquinox::Date
        } else if c == 1 {
            MeanEquinox::Year
        } else if c == 2 {
            MeanEquinox::J2000
        } else if c == 3 {
            MeanEquinox::B1950
        } else {
            MeanEquinox::J2000
        }
    }

    pub fn code(self) -> (r: i32)
        ensures
            r == self.spec_code(),
            MeanEquinox::spec_from_code(r) == self,
    {
        match self {
            MeanEquinox::Date => 0,
            MeanEquinox::Year => 1,
            MeanEquinox::J2000 => 2,
            MeanEquinox::B1950 => 3,
        }
    }

    pub fn from_code(c: i32) -> (r: MeanEquinox)
        ensures
            r == MeanEquinox::spec_from_code(c),
    {
        if c == 0 {
            MeanEquinox::Date
        } else if c == 1 {
            MeanEquinox::Year
        } else if c == 2 {
            MeanEquinox::J2000
        } else if c == 3 {
            MeanEquinox::B1950
        } else {
            MeanEquinox::J2000
        }
    }
}

/// Where an observation stands in its track.
#[derive(Debug, Clone, Copy, PartialEq, Eq, Structural)]
pub enum PositionInTrack {
    Beginning,
    Middle,
    End,
}

impl PositionInTrack {
    /// The integer code of the variant.
    pub open spec fn spec_code(self) -> i32 {
        match self {
            PositionInTrack::Beginning => 3,
            PositionInTrack::Middle => 4,
            PositionInTrack::End => 5,
        }
    }

    /// The variant written as `c`; an unknown code reads as `Middle`.
    pub open spec fn spec_from_code(c: i32) -> PositionInTrack {
        if c == 3 {
            PositionInTrack::Beginning
        } else if c == 4 {
            PositionInTrack::Middle
        } else if c == 5 {
            PositionInTrack::End
        } else {
            PositionInTrack::Middle
        }
    }

    pub fn code(self) -> (r: i32)
        ensures
            r == self.spec_code(),
            PositionInTrack::spec_from_code(r) == self,
    {
        match self {
            PositionInTrack::Beginning => 3,
            PositionInTrack::Middle => 4,
            PositionInTrack::End => 5,
        }
    }

    pub fn from_code(c: i32) -> (r: PositionInTrack)
        ensures
            r == PositionInTrack::spec_from_code(c),
    {
        if c == 3 {
            PositionInTrack::Beginning
        } else if c == 4 {
            PositionInTrack::Middle
        } else if c == 5 {
            PositionInTrack::End
        } else {
            PositionInTrack::Middle
        }
    }
}

/// How surely an observation is associated with its object.
#[derive(Debug, Clone, Copy, PartialEq, Eq, Structural)]
pub enum AssociationStatus {
    Statistical,
    High,
    Medium,
    Low,
    NoAssociation,
}

impl AssociationStatus {
    /// The integer code of the variant.
    pub open spec fn spec_code(self) -> i32 {
        match self {
            AssociationStatus::Statistical => 0,
            AssociationStatus::High => 1,
            AssociationStatus::Medium => 2,
            AssociationStatus::Low => 3,
            AssociationStatus::NoAssociation => 4,
        }
    }

    /// The variant written as `c`; an unknown code reads as `NoAssociation`.
    pub open spec fn spec_from_code(c: i32) -> AssociationStatus {
        if c == 0 {
            AssociationStatus::Statistical
        } else if c == 1 {
            AssociationStatus::High
        } else if c == 2 {
            AssociationStatus::Medium
        } else if c == 3 {
            AssociationStatus::Low
        } else if c == 4 {
            AssociationStatus::NoAssociation
        } else {
            AssociationStatus::NoAssociation
        }
    }

    pub fn code(self) -> (r: i32)
        ensures
            r == self.spec_code(),
            AssociationStatus::spec_from_code(r) == self,
    {
        match self {
            AssociationStatus::Statistical => 0,
            AssociationStatus::High => 1,
            AssociationStatus::Medium => 2,
            AssociationStatus::Low => 3,
            AssociationStatus::NoAssociation => 4,
        }
    }

    pub fn from_code(c: i32) -> (r: AssociationStatus)
        ensures
            r == AssociationStatus::spec_from_code(c),
    {
        if c == 0 {
            AssociationStatus::Statistical
        } else if c == 1 {
            AssociationStatus::High
        } else if c == 2 {
            AssociationStatus::Medium
        } else if c == 3 {
            AssociationStatus::Low
        } else if c == 4 {
            AssociationStatus::NoAssociation
        } else {
            AssociationStatus::NoAssociation
        }
    }
}

impl From<i32> for PositionInTrack {
    fn from(c: i32) -> (r: PositionInTrack) {
        PositionInTrack::from_code(c)
    }
}

impl vstd::std_specs::convert::FromSpecImpl<i32> for PositionInTrack {
    open spec fn obeys_from_spec() -> bool {
        true
    }

    open spec fn from_spec(c: i32) -> PositionInTrack {
        PositionInTrack::spec_from_code(c)
    }
}

impl From<PositionInTrack> for i32 {
    fn from(c: PositionInTrack) -> (r: i32) {
        c.code()
    }
}

impl vstd::std_specs::convert::FromSpecImpl<PositionInTrack> for i32 {
    open spec fn obeys_from_spec() -> bool {
        true
    }

    open spec fn from_spec(c: PositionInTrack) -> i32 {
        c.spec_code()
    }
}

impl From<i32> for AssociationStatus {
    fn from(c: i32) -> (r: AssociationStatus) {
        AssociationStatus::from_code(c)
    }
}

impl vstd::std_specs::convert::FromSpecImpl<i32> for AssociationStatus {
    open spec fn obeys_from_spec() -> bool {
        true
    }

    open spec fn from_spec(c: i32) -> AssociationStatus {
        AssociationStatus::spec_from_code(c)
    }
}

impl From<AssociationStatus> for i32 {
    fn from(c: AssociationStatus) -> (r: i32) {
        c.code()
    }
}

impl vstd::std_specs::convert::FromSpecImpl<AssociationStatus> for i32 {
    open spec fn obeys_from_spec() -> bool {
        true
    }

    open spec fn from_spec(c: AssociationStatus) -> i32 {
        c.spec_code()
    }
}

impl From<MeanEquinox> for i32 {
    fn from(c: MeanEquinox) -> (r: i32) {
        c.code()
    }
}

impl vstd::std_specs::convert::FromSpecImpl<MeanEquinox> for i32 {
    open spec fn obeys_from_spec() -> bool {
        true
    }

    open spec fn from_spec(c: MeanEquinox) -> i32 {
        c.spec_code()
    }
}

impl From<i8> for Classification {
    fn from(c: i8) -> (r: Classification) {
        Classification::from_byte(c as u8)
    }
}

impl vstd::std_specs::convert::FromSpecImpl<i8> for Classification {
    open spec fn obeys_from_spec() -> bool {
        true
    }

    open spec fn from_spec(c: i8) -> Classification {
        Classification::spec_from_byte(c as u8)
    }
}

impl From<Classification> for i8 {
    fn from(c: Classification) -> (r: i8) {
        c.to_byte() as i8
    }
}

impl vstd::std_specs::convert::FromSpecImpl<Classification> for i8 {
    open spec fn obeys_from_spec() -> bool {
        true
    }

    open spec fn from_spec(c: Classification) -> i8 {
        c.spec_byte() as i8
    }
}

impl From<B3Type> for i8 {
    fn from(c: B3Type) -> (r: i8) {
        c.to_byte() as i8
    }
}

impl vstd::std_specs::convert::FromSpecImpl<B3Type> for i8 {
    open spec fn obeys_from_spec() -> bool {
        true
    }

    open spec fn from_spec(c: B3Type) -> i8 {
        c.spec_byte() as i8
    }
}

} // verus!
