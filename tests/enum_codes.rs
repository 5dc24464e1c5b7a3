use saal::enums::{
    AssociationStatus, B3Type, Classification, DuplicateKeyMode, ElementType, ElsetKeyMode,
    FundamentalCatalog, GeopotentialModel, KeyMode, KeyOrder, MeanEquinox, PositionInTrack,
    SGP4OutputEphemerisFrame, TLEType, UVWType,
};

#[test]
fn setting_codes_round_trip() {
    assert_eq!(KeyMode::DirectMemoryAccess.code(), 1);
    assert_eq!(KeyMode::from_code(0), Some(KeyMode::NoDuplicates));
    assert_eq!(KeyMode::from_code(5), None);
    assert_eq!(DuplicateKeyMode::from_code(1), Some(DuplicateKeyMode::ReturnKey));
    assert_eq!(DuplicateKeyMode::ReturnZero.code(), 0);
    assert_eq!(ElsetKeyMode::from_code(1), Some(ElsetKeyMode::DirectMemoryAccess));
    assert_eq!(KeyOrder::Fastest.code(), 9);
    assert_eq!(KeyOrder::from_code(2), Some(KeyOrder::LoadTime));
    assert_eq!(KeyOrder::from_code(3), None);
    assert_eq!(ElementType::TwoLineXP.code(), 7);
    assert_eq!(ElementType::from_code(4), Some(ElementType::SPVector));
    assert_eq!(FundamentalCatalog::from_code(5), Some(FundamentalCatalog::Five));
    assert_eq!(GeopotentialModel::EGM08.code(), 8);
    assert_eq!(GeopotentialModel::from_code(84), Some(GeopotentialModel::WGS84));
    assert_eq!(SGP4OutputEphemerisFrame::J2000.code(), 2);
    assert_eq!(UVWType::from_code(1), Some(UVWType::Inertial));
}

#[test]
fn record_codes_default_when_unknown() {
    assert_eq!(TLEType::from_code(4), TLEType::XP);
    assert_eq!(TLEType::from_code(6), TLEType::SP);
    assert_eq!(TLEType::from_code(0), TLEType::SGP);
    assert_eq!(TLEType::from_code(3), TLEType::SGP4);
    assert_eq!(Classification::from_byte(b'C'), Classification::Confidential);
    assert_eq!(Classification::from_byte(b'x'), Classification::Unclassified);
    assert_eq!(Classification::Secret.to_byte(), b'S');
    assert_eq!(B3Type::from_byte(b'9'), B3Type::Nine);
    assert_eq!(B3Type::from_byte(b'7'), B3Type::Five);
    assert_eq!(B3Type::Two.to_byte(), b'2');
    assert_eq!(MeanEquinox::from_code(3), MeanEquinox::B1950);
    assert_eq!(MeanEquinox::from_code(42), MeanEquinox::J2000);
    assert_eq!(PositionInTrack::from_code(5), PositionInTrack::End);
    assert_eq!(PositionInTrack::from_code(0), PositionInTrack::Middle);
    assert_eq!(AssociationStatus::from_code(2), AssociationStatus::Medium);
    assert_eq!(AssociationStatus::from_code(-1), AssociationStatus::NoAssociation);
    assert_eq!(AssociationStatus::Statistical.code(), 0);
}

#[test]
fn integer_conversions() {
    assert_eq!(PositionInTrack::from(3), PositionInTrack::Beginning);
    assert_eq!(PositionInTrack::from(9), PositionInTrack::Middle);
    assert_eq!(i32::from(PositionInTrack::End), 5);
    assert_eq!(AssociationStatus::from(1), AssociationStatus::High);
    assert_eq!(AssociationStatus::from(17), AssociationStatus::NoAssociation);
    assert_eq!(i32::from(AssociationStatus::Low), 3);
    assert_eq!(i32::from(MeanEquinox::B1950), 3);
    assert_eq!(Classification::from(b'S' as i8), Classification::Secret);
    assert_eq!(Classification::from(0i8), Classification::Unclassified);
    assert_eq!(i8::from(Classification::Confidential), b'C' as i8);
    assert_eq!(i8::from(B3Type::Nine), b'9' as i8);
}
