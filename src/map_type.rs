//! The map a recording was made on, from its map id.
use vstd::prelude::*;

verus! {

#[derive(Debug, Clone, Copy, PartialEq, Eq, Structural)]
pub enum MapType {
    EternalBattlegrounds,
    GreenAlpineBorderlands,
    BlueAlpineBorderlands,
    RedDesertBorderlands,
    EdgeOfTheMists,
    ObsidianSanctum,
    PvE,
    Unknown,
}

/// The map type of a map id: six fixed world-vs-world maps, `Unknown` for the
/// id zero, `PvE` for every other id.
pub open spec fn map_type_of(id: u16) -> MapType {
    if id == 38 {
        MapType::EternalBattlegrounds
    } else if id == 95 {
        MapType::GreenAlpineBorderlands
    } else if id == 96 {
        MapType::BlueAlpineBorderlands
    } else if id == 1099 {
        MapType::RedDesertBorderlands
    } else if id == 968 {
        MapType::EdgeOfTheMists
    } else if id == 899 {
        MapType::ObsidianSanctum
    } else if id == 0 {
        MapType::Unknown
    } else {
        MapType::PvE
    }
}

/// Whether a map type is one of the world-vs-world maps.
pub open spec fn is_wvw_spec(m: MapType) -> bool {
    !(m is PvE || m is Unknown)
}

impl MapType {
    pub fn from_map_id(map_id: u16) -> (r: MapType)
        ensures
            r == map_type_of(map_id),
    {
        match map_id {
            38 => MapType::EternalBattlegrounds,
            95 => MapType::GreenAlpineBorderlands,
            96 => MapType::BlueAlpineBorderlands,
            1099 => MapType::RedDesertBorderlands,
            968 => MapType::EdgeOfTheMists,
            899 => MapType::ObsidianSanctum,
            _ => {
                if map_id > 0 {
                    MapType::PvE
                } else {
                    MapType::Unknown
                }
            },
        }
    }

    /// The short label shown for the map.
    pub fn display_name(&self) -> (r: &'static str)
        ensures
            r@ == match *self {
                MapType::EternalBattlegrounds => "EBG"@,
                MapType::GreenAlpineBorderlands => "GBL"@,
                MapType::BlueAlpineBorderlands => "BBL"@,
                MapType::RedDesertBorderlands => "RBL"@,
                MapType::EdgeOfTheMists => "EotM"@,
                MapType::ObsidianSanctum => "OS"@,
                MapType::PvE => "PvE"@,
                MapType::Unknown => "Unknown"@,
            },
    {
        match self {
            MapType::EternalBattlegrounds => "EBG",
            MapType::GreenAlpineBorderlands => "GBL",
            MapType::BlueAlpineBorderlands => "BBL",
            MapType::RedDesertBorderlands => "RBL",
            MapType::EdgeOfTheMists => "EotM",
            MapType::ObsidianSanctum => "OS",
            MapType::PvE => "PvE",
            MapType::Unknown => "Unknown",
        }
    }

    pub fn is_wvw(&self) -> (r: bool)
        ensures
            r == is_wvw_spec(*self),
    {
        !matches!(self, MapType::PvE | MapType::Unknown)
    }
}

/// Every id of the map table gives its named world-vs-world map, zero gives
/// `Unknown`, every other id gives `PvE`, and only the six named maps count as
/// world-vs-world.
pub proof fn lemma_map_table(id: u16)
    ensures
        id == 38 ==> map_type_of(id) == MapType::EternalBattlegrounds,
        id == 95 ==> map_type_of(id) == MapType::GreenAlpineBorderlands,
        id == 96 ==> map_type_of(id) == MapType::BlueAlpineBorderlands,
        id == 1099 ==> map_type_of(id) == MapType::RedDesertBorderlands,
        id == 968 ==> map_type_of(id) == MapType::EdgeOfTheMists,
        id == 899 ==> map_type_of(id) == MapType::ObsidianSanctum,
        id == 0 ==> map_type_of(id) == MapType::Unknown,
        !(id == 38 || id == 95 || id == 96 || id == 1099 || id == 968 || id == 899 || id == 0)
            ==> map_type_of(id) == MapType::PvE,
        is_wvw_spec(map_type_of(id)) <==> (id == 38 || id == 95 || id == 96 || id == 1099 || id
            == 968 || id == 899),
{
}

} // verus!
