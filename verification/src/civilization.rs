//! The civilizations that players lead, with their colors.
use vstd::prelude::*;

verus! {

/// A civilization that a player can lead.
#[derive(Copy, Clone, PartialEq, Eq, Structural, Debug, Hash)]
pub enum Civilization {
    America,
    Arabia,
    Brazil,
    China,
    Egypt,
    France,
    Germany,
    Greece,
    India,
    Japan,
    Kongo,
    Norway,
    Portugal,
    Rome,
    Russia,
    Scythia,
    Spain,
    Sumeria,
}

/// The civilization of the local player.
pub struct OurCivilization(pub Civilization);

/// All civilizations, in declaration order.
pub open spec fn spec_all_civilizations() -> Seq<Civilization> {
    seq![
        Civilization::America,
        Civilization::Arabia,
        Civilization::Brazil,
        Civilization::China,
        Civilization::Egypt,
        Civilization::France,
        Civilization::Germany,
        Civilization::Greece,
        Civilization::India,
        Civilization::Japan,
        Civilization::Kongo,
        Civilization::Norway,
        Civilization::Portugal,
        Civilization::Rome,
        Civilization::Russia,
        Civilization::Scythia,
        Civilization::Spain,
        Civilization::Sumeria,
    ]
}

/// Primary and secondary color of a civilization, as `0xRRGGBB`.
pub open spec fn spec_colors(c: Civilization) -> (u32, u32) {
    match c {
        Civilization::America => (0x042C6C, 0xF7F7F8),
        Civilization::Arabia => (0xF3DB04, 0x166C33),
        Civilization::Brazil => (0x64BC24, 0xF2DB04),
        Civilization::China => (0x146C34, 0xF9F9F9),
        Civilization::Egypt => (0x044C54, 0xE8E19A),
        Civilization::France => (0x044CCC, 0xE9E19D),
        Civilization::Germany => (0xABABAB, 0x1D1D1D),
        Civilization::Greece => (0x74A4F4, 0xFAFAFB),
        Civilization::India => (0x340464, 0x04C29B),
        Civilization::Japan => (0xFBFBFB, 0x7C0505),
        Civilization::Kongo => (0xF4DB04, 0xCC1514),
        Civilization::Norway => (0x042C6C, 0xC91416),
        Civilization::Portugal => (0xFBFBFB, 0x062D6C),
        Civilization::Rome => (0x6C04CB, 0xF3DB07),
        Civilization::Russia => (0xF3DB04, 0x1D1C1B),
        Civilization::Scythia => (0xFBB33B, 0x7C0604),
        Civilization::Spain => (0xCC1414, 0xF3DB04),
        Civilization::Sumeria => (0x042C6C, 0xFA8316),
    }
}

/// Name of a civilization, as shown to players.
pub open spec fn spec_name(c: Civilization) -> Seq<char> {
    match c {
        Civilization::America => "America"@,
        Civilization::Arabia => "Arabia"@,
        Civilization::Brazil => "Brazil"@,
        Civilization::China => "China"@,
        Civilization::Egypt => "Egypt"@,
        Civilization::France => "France"@,
        Civilization::Germany => "Germany"@,
        Civilization::Greece => "Greece"@,
        Civilization::India => "India"@,
        Civilization::Japan => "Japan"@,
        Civilization::Kongo => "Kongo"@,
        Civilization::Norway => "Norway"@,
        Civilization::Portugal => "Portugal"@,
        Civilization::Rome => "Rome"@,
        Civilization::Russia => "Russia"@,
        Civilization::Scythia => "Scythia"@,
        Civilization::Spain => "Spain"@,
        Civilization::Sumeria => "Sumeria"@,
    }
}

impl Civilization {
    /// All civilizations, in declaration order.
    pub fn variants() -> (r: Vec<Civilization>)
        ensures
            r@ == spec_all_civilizations(),
    {
        let r = vec![
            Civilization::America,
            Civilization::Arabia,
            Civilization::Brazil,
            Civilization::China,
            Civilization::Egypt,
            Civilization::France,
            Civilization::Germany,
            Civilization::Greece,
            Civilization::India,
            Civilization::Japan,
            Civilization::Kongo,
            Civilization::Norway,
            Civilization::Portugal,
            Civilization::Rome,
            Civilization::Russia,
            Civilization::Scythia,
            Civilization::Spain,
            Civilization::Sumeria,
        ];
        assert(r@ =~= spec_all_civilizations());
        r
    }

    /// Primary and secondary color of the civilization, as `0xRRGGBB`.
    pub fn colors(&self) -> (r: [u32; 2])
        ensures
            (r[0], r[1]) == spec_colors(*self),
    {
        match self {
            Civilization::America => [0x042C6C, 0xF7F7F8],
            Civilization::Arabia => [0xF3DB04, 0x166C33],
            Civilization::Brazil => [0x64BC24, 0xF2DB04],
            Civilization::China => [0x146C34, 0xF9F9F9],
            Civilization::Egypt => [0x044C54, 0xE8E19A],
            Civilization::France => [0x044CCC, 0xE9E19D],
            Civilization::Germany => [0xABABAB, 0x1D1D1D],
            Civilization::Greece => [0x74A4F4, 0xFAFAFB],
            Civilization::India => [0x340464, 0x04C29B],
            Civilization::Japan => [0xFBFBFB, 0x7C0505],
            Civilization::Kongo => [0xF4DB04, 0xCC1514],
            Civilization::Norway => [0x042C6C, 0xC91416],
            Civilization::Portugal => [0xFBFBFB, 0x062D6C],
            Civilization::Rome => [0x6C04CB, 0xF3DB07],
            Civilization::Russia => [0xF3DB04, 0x1D1C1B],
            Civilization::Scythia => [0xFBB33B, 0x7C0604],
            Civilization::Spain => [0xCC1414, 0xF3DB04],
            Civilization::Sumeria => [0x042C6C, 0xFA8316],
        }
    }

    /// Name of the civilization, as shown to players.
    pub fn name(&self) -> (r: &'static str)
        ensures
            r@ == spec_name(*self),
    {
        match self {
            Civilization::America => "America",
            Civilization::Arabia => "Arabia",
            Civilization::Brazil => "Brazil",
            Civilization::China => "China",
            Civilization::Egypt => "Egypt",
            Civilization::France => "France",
            Civilization::Germany => "Germany",
            Civilization::Greece => "Greece",
            Civilization::India => "India",
            Civilization::Japan => "Japan",
            Civilization::Kongo => "Kongo",
            Civilization::Norway => "Norway",
            Civilization::Portugal => "Portugal",
            Civilization::Rome => "Rome",
            Civilization::Russia => "Russia",
            Civilization::Scythia => "Scythia",
            Civilization::Spain => "Spain",
            Civilization::Sumeria => "Sumeria",
        }
    }
}

/// Every civilization occurs exactly once among the variants.
pub proof fn lemma_variants_complete(c: Civilization)
    ensures
        spec_all_civilizations().contains(c),
        spec_all_civilizations().no_duplicates(),
{
    let s = spec_all_civilizations();
    match c {
        Civilization::America => assert(s[0] == c),
        Civilization::Arabia => assert(s[1] == c),
        Civilization::Brazil => assert(s[2] == c),
        Civilization::China => assert(s[3] == c),
        Civilization::Egypt => assert(s[4] == c),
        Civilization::France => assert(s[5] == c),
        Civilization::Germany => assert(s[6] == c),
        Civilization::Greece => assert(s[7] == c),
        Civilization::India => assert(s[8] == c),
        Civilization::Japan => assert(s[9] == c),
        Civilization::Kongo => assert(s[10] == c),
        Civilization::Norway => assert(s[11] == c),
        Civilization::Portugal => assert(s[12] == c),
        Civilization::Rome => assert(s[13] == c),
        Civilization::Russia => assert(s[14] == c),
        Civilization::Scythia => assert(s[15] == c),
        Civilization::Spain => assert(s[16] == c),
        Civilization::Sumeria => assert(s[17] == c),
    }
}

} // verus!
