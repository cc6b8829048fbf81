//! Readable names and family grouping for the platform identifiers of the
//! ROM repository (the name of each `.jsonl` file).

use vstd::prelude::*;

use crate::text::{char_upper, char_to_uppercase, chars_of, owned, push_char, string_of};

verus! {

/// The family a platform belongs to; used to group the grid.
#[derive(Debug, Clone, Copy, PartialEq, Eq, PartialOrd, Ord, Structural)]
pub enum Family {
    Nintendo,
    Sega,
    Sony,
    Microsoft,
    Arcade,
    Retro,
    Pc,
    Otros,
}

pub open spec fn family_label(f: Family) -> Seq<char> {
    match f {
        Family::Nintendo => "Nintendo"@,
        Family::Sega => "Sega"@,
        Family::Sony => "Sony"@,
        Family::Microsoft => "Microsoft"@,
        Family::Arcade => "Arcade"@,
        Family::Retro => "Microordenadores"@,
        Family::Pc => "PC"@,
        Family::Otros => "Otros"@,
    }
}

pub open spec fn family_order() -> Seq<Family> {
    seq![
        Family::Nintendo,
        Family::Sega,
        Family::Sony,
        Family::Microsoft,
        Family::Arcade,
        Family::Retro,
        Family::Pc,
        Family::Otros,
    ]
}

impl Family {
    pub fn label(self) -> (s: &'static str)
        ensures
            s@ == family_label(self),
    {
        match self {
            Family::Nintendo => "Nintendo",
            Family::Sega => "Sega",
            Family::Sony => "Sony",
            Family::Microsoft => "Microsoft",
            Family::Arcade => "Arcade",
            Family::Retro => "Microordenadores",
            Family::Pc => "PC",
            Family::Otros => "Otros",
        }
    }

    /// Every family, in the order the grid shows them.
    pub fn all() -> (v: [Family; 8])
        ensures
            v@ == family_order(),
    {
        let v = [
            Family::Nintendo,
            Family::Sega,
            Family::Sony,
            Family::Microsoft,
            Family::Arcade,
            Family::Retro,
            Family::Pc,
            Family::Otros,
        ];
        assert(v@ =~= family_order());
        v
    }
}

pub struct PlatformView {
    pub id: Seq<char>,
    pub name: Seq<char>,
    pub family: Family,
}

pub open spec fn platform(id: Seq<char>, name: Seq<char>, family: Family) -> PlatformView {
    PlatformView { id, name, family }
}

/// The known platforms, sorted by identifier.
pub open spec fn platform_table() -> Seq<PlatformView> {
    platform_group0() + platform_group1() + platform_group2() + platform_group3() + platform_group4() + platform_group5()
}

pub open spec fn platform_views(v: Seq<(&'static str, &'static str, Family)>) -> Seq<PlatformView> {
    v.map_values(|t: (&'static str, &'static str, Family)| platform(t.0@, t.1@, t.2))
}

pub open spec fn platform_group0() -> Seq<PlatformView> {
    seq![
        platform("3do"@, "3DO Interactive"@, Family::Otros),
        platform("3ds"@, "Nintendo 3DS"@, Family::Nintendo),
        platform("acorn"@, "Acorn Electron"@, Family::Retro),
        platform("adam"@, "Coleco Adam"@, Family::Retro),
        platform("advision"@, "Adventure Vision"@, Family::Otros),
        platform("amiga1200"@, "Amiga 1200"@, Family::Retro),
        platform("amiga500"@, "Amiga 500"@, Family::Retro),
        platform("amigacd32"@, "Amiga CD32"@, Family::Retro),
        platform("amigacdtv"@, "Amiga CDTV"@, Family::Retro),
        platform("amstradcpc"@, "Amstrad CPC"@, Family::Retro),
        platform("apfm1000"@, "APF M1000"@, Family::Otros),
        platform("apple2"@, "Apple II"@, Family::Retro),
        platform("arcade"@, "Arcade"@, Family::Arcade),
        platform("arcadia"@, "Arcadia 2001"@, Family::Otros),
        platform("arduboy"@, "Arduboy"@, Family::Otros),
        platform("astrocade"@, "Bally Astrocade"@, Family::Otros),
        platform("atari2600"@, "Atari 2600"@, Family::Retro),
        platform("atari5200"@, "Atari 5200"@, Family::Retro),
        platform("atari7800"@, "Atari 7800"@, Family::Retro),
        platform("atari800"@, "Atari 800"@, Family::Retro),
        platform("atarist"@, "Atari ST"@, Family::Retro),
        platform("atomiswave"@, "Atomiswave"@, Family::Arcade),
        platform("bbcmicro"@, "BBC Micro"@, Family::Retro),
        platform("c128"@, "Commodore 128"@, Family::Retro),
        platform("c20"@, "Commodore VIC-20"@, Family::Retro),
    ]
}

fn push_group0(v: &mut Vec<(&'static str, &'static str, Family)>)
    ensures
        platform_views(final(v)@) == platform_views(old(v)@) + platform_group0(),
{
    let ghost before = platform_views(v@);
    v.push(("3do", "3DO Interactive", Family::Otros));
    v.push(("3ds", "Nintendo 3DS", Family::Nintendo));
    v.push(("acorn", "Acorn Electron", Family::Retro));
    v.push(("adam", "Coleco Adam", Family::Retro));
    v.push(("advision", "Adventure Vision", Family::Otros));
    v.push(("amiga1200", "Amiga 1200", Family::Retro));
    v.push(("amiga500", "Amiga 500", Family::Retro));
    v.push(("amigacd32", "Amiga CD32", Family::Retro));
    v.push(("amigacdtv", "Amiga CDTV", Family::Retro));
    v.push(("amstradcpc", "Amstrad CPC", Family::Retro));
    v.push(("apfm1000", "APF M1000", Family::Otros));
    v.push(("apple2", "Apple II", Family::Retro));
    v.push(("arcade", "Arcade", Family::Arcade));
    v.push(("arcadia", "Arcadia 2001", Family::Otros));
    v.push(("arduboy", "Arduboy", Family::Otros));
    v.push(("astrocade", "Bally Astrocade", Family::Otros));
    v.push(("atari2600", "Atari 2600", Family::Retro));
    v.push(("atari5200", "Atari 5200", Family::Retro));
    v.push(("atari7800", "Atari 7800", Family::Retro));
    v.push(("atari800", "Atari 800", Family::Retro));
    v.push(("atarist", "Atari ST", Family::Retro));
    v.push(("atomiswave", "Atomiswave", Family::Arcade));
    v.push(("bbcmicro", "BBC Micro", Family::Retro));
    v.push(("c128", "Commodore 128", Family::Retro));
    v.push(("c20", "Commodore VIC-20", Family::Retro));
    assert(platform_views(v@) =~= before + platform_group0());
}

pub open spec fn platform_group1() -> Seq<PlatformView> {
    seq![
        platform("c64"@, "Commodore 64"@, Family::Retro),
        platform("camplynx"@, "Camputers Lynx"@, Family::Retro),
        platform("casloopy"@, "Casio Loopy"@, Family::Otros),
        platform("cave"@, "CAVE"@, Family::Arcade),
        platform("cdi"@, "Philips CD-i"@, Family::Otros),
        platform("channelf"@, "Fairchild Channel F"@, Family::Otros),
        platform("colecovision"@, "ColecoVision"@, Family::Retro),
        platform("cplus4"@, "Commodore Plus/4"@, Family::Retro),
        platform("cps"@, "Capcom CPS"@, Family::Arcade),
        platform("cps1"@, "Capcom CPS-1"@, Family::Arcade),
        platform("cps2"@, "Capcom CPS-2"@, Family::Arcade),
        platform("cps3"@, "Capcom CPS-3"@, Family::Arcade),
        platform("crvision"@, "CreatiVision"@, Family::Otros),
        platform("dos"@, "MS-DOS"@, Family::Pc),
        platform("dreamcast"@, "Sega Dreamcast"@, Family::Sega),
        platform("easyrpg"@, "EasyRPG"@, Family::Otros),
        platform("fbneo"@, "FinalBurn Neo"@, Family::Arcade),
        platform("fds"@, "Famicom Disk System"@, Family::Nintendo),
        platform("flash"@, "Flash"@, Family::Pc),
        platform("fm7"@, "Fujitsu FM-7"@, Family::Retro),
        platform("fmtowns"@, "FM Towns"@, Family::Retro),
        platform("fpinball"@, "Future Pinball"@, Family::Pc),
        platform("gamate"@, "Gamate"@, Family::Otros),
        platform("gameandwatch"@, "Game & Watch"@, Family::Nintendo),
        platform("gamecube"@, "Nintendo GameCube"@, Family::Nintendo),
    ]
}

fn push_group1(v: &mut Vec<(&'static str, &'static str, Family)>)
    ensures
        platform_views(final(v)@) == platform_views(old(v)@) + platform_group1(),
{
    let ghost before = platform_views(v@);
    v.push(("c64", "Commodore 64", Family::Retro));
    v.push(("camplynx", "Camputers Lynx", Family::Retro));
    v.push(("casloopy", "Casio Loopy", Family::Otros));
    v.push(("cave", "CAVE", Family::Arcade));
    v.push(("cdi", "Philips CD-i", Family::Otros));
    v.push(("channelf", "Fairchild Channel F", Family::Otros));
    v.push(("colecovision", "ColecoVision", Family::Retro));
    v.push(("cplus4", "Commodore Plus/4", Family::Retro));
    v.push(("cps", "Capcom CPS", Family::Arcade));
    v.push(("cps1", "Capcom CPS-1", Family::Arcade));
    v.push(("cps2", "Capcom CPS-2", Family::Arcade));
    v.push(("cps3", "Capcom CPS-3", Family::Arcade));
    v.push(("crvision", "CreatiVision", Family::Otros));
    v.push(("dos", "MS-DOS", Family::Pc));
    v.push(("dreamcast", "Sega Dreamcast", Family::Sega));
    v.push(("easyrpg", "EasyRPG", Family::Otros));
    v.push(("fbneo", "FinalBurn Neo", Family::Arcade));
    v.push(("fds", "Famicom Disk System", Family::Nintendo));
    v.push(("flash", "Flash", Family::Pc));
    v.push(("fm7", "Fujitsu FM-7", Family::Retro));
    v.push(("fmtowns", "FM Towns", Family::Retro));
    v.push(("fpinball", "Future Pinball", Family::Pc));
    v.push(("gamate", "Gamate", Family::Otros));
    v.push(("gameandwatch", "Game & Watch", Family::Nintendo));
    v.push(("gamecube", "Nintendo GameCube", Family::Nintendo));
    assert(platform_views(v@) =~= before + platform_group1());
}

pub open spec fn platform_group2() -> Seq<PlatformView> {
    seq![
        platform("gamegear"@, "Sega Game Gear"@, Family::Sega),
        platform("gamepock"@, "Game Pocket Computer"@, Family::Otros),
        platform("gb"@, "Game Boy"@, Family::Nintendo),
        platform("gba"@, "Game Boy Advance"@, Family::Nintendo),
        platform("gbc"@, "Game Boy Color"@, Family::Nintendo),
        platform("gmaster"@, "Game Master"@, Family::Otros),
        platform("gp32"@, "GP32"@, Family::Otros),
        platform("gx4000"@, "Amstrad GX4000"@, Family::Retro),
        platform("intellivision"@, "Intellivision"@, Family::Retro),
        platform("jaguar"@, "Atari Jaguar"@, Family::Retro),
        platform("jaguarcd"@, "Atari Jaguar CD"@, Family::Retro),
        platform("lowresnx"@, "LowRes NX"@, Family::Otros),
        platform("lutro"@, "Lutro"@, Family::Otros),
        platform("lynx"@, "Atari Lynx"@, Family::Retro),
        platform("mame"@, "MAME"@, Family::Arcade),
        platform("mastersystem"@, "Sega Master System"@, Family::Sega),
        platform("megadrive"@, "Sega Mega Drive"@, Family::Sega),
        platform("megadrive-msu"@, "Mega Drive MSU"@, Family::Sega),
        platform("megaduck"@, "Mega Duck"@, Family::Otros),
        platform("model2"@, "Sega Model 2"@, Family::Arcade),
        platform("model3"@, "Sega Model 3"@, Family::Arcade),
        platform("ms2"@, "MSX2"@, Family::Retro),
        platform("msx1"@, "MSX"@, Family::Retro),
        platform("msx2+"@, "MSX2+"@, Family::Retro),
        platform("msxturbor"@, "MSX turbo R"@, Family::Retro),
    ]
}

fn push_group2(v: &mut Vec<(&'static str, &'static str, Family)>)
    ensures
        platform_views(final(v)@) == platform_views(old(v)@) + platform_group2(),
{
    let ghost before = platform_views(v@);
    v.push(("gamegear", "Sega Game Gear", Family::Sega));
    v.push(("gamepock", "Game Pocket Computer", Family::Otros));
    v.push(("gb", "Game Boy", Family::Nintendo));
    v.push(("gba", "Game Boy Advance", Family::Nintendo));
    v.push(("gbc", "Game Boy Color", Family::Nintendo));
    v.push(("gmaster", "Game Master", Family::Otros));
    v.push(("gp32", "GP32", Family::Otros));
    v.push(("gx4000", "Amstrad GX4000", Family::Retro));
    v.push(("intellivision", "Intellivision", Family::Retro));
    v.push(("jaguar", "Atari Jaguar", Family::Retro));
    v.push(("jaguarcd", "Atari Jaguar CD", Family::Retro));
    v.push(("lowresnx", "LowRes NX", Family::Otros));
    v.push(("lutro", "Lutro", Family::Otros));
    v.push(("lynx", "Atari Lynx", Family::Retro));
    v.push(("mame", "MAME", Family::Arcade));
    v.push(("mastersystem", "Sega Master System", Family::Sega));
    v.push(("megadrive", "Sega Mega Drive", Family::Sega));
    v.push(("megadrive-msu", "Mega Drive MSU", Family::Sega));
    v.push(("megaduck", "Mega Duck", Family::Otros));
    v.push(("model2", "Sega Model 2", Family::Arcade));
    v.push(("model3", "Sega Model 3", Family::Arcade));
    v.push(("ms2", "MSX2", Family::Retro));
    v.push(("msx1", "MSX", Family::Retro));
    v.push(("msx2+", "MSX2+", Family::Retro));
    v.push(("msxturbor", "MSX turbo R", Family::Retro));
    assert(platform_views(v@) =~= before + platform_group2());
}

pub open spec fn platform_group3() -> Seq<PlatformView> {
    seq![
        platform("mugen"@, "M.U.G.E.N"@, Family::Pc),
        platform("multivision"@, "Multivision"@, Family::Otros),
        platform("n64"@, "Nintendo 64"@, Family::Nintendo),
        platform("n64dd"@, "Nintendo 64DD"@, Family::Nintendo),
        platform("naomi"@, "Sega NAOMI"@, Family::Arcade),
        platform("naomi2"@, "Sega NAOMI 2"@, Family::Arcade),
        platform("naomigd"@, "Sega NAOMI GD-ROM"@, Family::Arcade),
        platform("nds"@, "Nintendo DS"@, Family::Nintendo),
        platform("neogeo"@, "Neo Geo"@, Family::Arcade),
        platform("neogeo64"@, "Neo Geo 64"@, Family::Arcade),
        platform("neogeocd"@, "Neo Geo CD"@, Family::Arcade),
        platform("nes"@, "Nintendo NES"@, Family::Nintendo),
        platform("ngage"@, "Nokia N-Gage"@, Family::Otros),
        platform("ngp"@, "Neo Geo Pocket"@, Family::Otros),
        platform("ngpc"@, "Neo Geo Pocket Color"@, Family::Otros),
        platform("o2em"@, "Odyssey 2 (O2EM)"@, Family::Retro),
        platform("odyssey2"@, "Magnavox Odyssey 2"@, Family::Retro),
        platform("openbor"@, "OpenBOR"@, Family::Pc),
        platform("oricatmos"@, "Oric Atmos"@, Family::Retro),
        platform("pc88"@, "NEC PC-88"@, Family::Retro),
        platform("pc98"@, "NEC PC-98"@, Family::Retro),
        platform("pcengine"@, "PC Engine"@, Family::Otros),
        platform("pcenginecd"@, "PC Engine CD"@, Family::Otros),
        platform("peliculas"@, "Peliculas"@, Family::Otros),
        platform("pet"@, "Commodore PET"@, Family::Retro),
    ]
}

fn push_group3(v: &mut Vec<(&'static str, &'static str, Family)>)
    ensures
        platform_views(final(v)@) == platform_views(old(v)@) + platform_group3(),
{
    let ghost before = platform_views(v@);
    v.push(("mugen", "M.U.G.E.N", Family::Pc));
    v.push(("multivision", "Multivision", Family::Otros));
    v.push(("n64", "Nintendo 64", Family::Nintendo));
    v.push(("n64dd", "Nintendo 64DD", Family::Nintendo));
    v.push(("naomi", "Sega NAOMI", Family::Arcade));
    v.push(("naomi2", "Sega NAOMI 2", Family::Arcade));
    v.push(("naomigd", "Sega NAOMI GD-ROM", Family::Arcade));
    v.push(("nds", "Nintendo DS", Family::Nintendo));
    v.push(("neogeo", "Neo Geo", Family::Arcade));
    v.push(("neogeo64", "Neo Geo 64", Family::Arcade));
    v.push(("neogeocd", "Neo Geo CD", Family::Arcade));
    v.push(("nes", "Nintendo NES", Family::Nintendo));
    v.push(("ngage", "Nokia N-Gage", Family::Otros));
    v.push(("ngp", "Neo Geo Pocket", Family::Otros));
    v.push(("ngpc", "Neo Geo Pocket Color", Family::Otros));
    v.push(("o2em", "Odyssey 2 (O2EM)", Family::Retro));
    v.push(("odyssey2", "Magnavox Odyssey 2", Family::Retro));
    v.push(("openbor", "OpenBOR", Family::Pc));
    v.push(("oricatmos", "Oric Atmos", Family::Retro));
    v.push(("pc88", "NEC PC-88", Family::Retro));
    v.push(("pc98", "NEC PC-98", Family::Retro));
    v.push(("pcengine", "PC Engine", Family::Otros));
    v.push(("pcenginecd", "PC Engine CD", Family::Otros));
    v.push(("peliculas", "Peliculas", Family::Otros));
    v.push(("pet", "Commodore PET", Family::Retro));
    assert(platform_views(v@) =~= before + platform_group3());
}

pub open spec fn platform_group4() -> Seq<PlatformView> {
    seq![
        platform("pico8"@, "PICO-8"@, Family::Otros),
        platform("pinballfx3"@, "Pinball FX3"@, Family::Pc),
        platform("pokemini"@, "Pokemon Mini"@, Family::Nintendo),
        platform("ps2"@, "PlayStation 2"@, Family::Sony),
        platform("ps3"@, "PlayStation 3"@, Family::Sony),
        platform("ps4"@, "PlayStation 4"@, Family::Sony),
        platform("psp"@, "PlayStation Portable"@, Family::Sony),
        platform("psvita"@, "PlayStation Vita"@, Family::Sony),
        platform("psx"@, "PlayStation"@, Family::Sony),
        platform("pv1000"@, "Casio PV-1000"@, Family::Otros),
        platform("revistas"@, "Revistas"@, Family::Otros),
        platform("samcoupe"@, "SAM Coupe"@, Family::Retro),
        platform("satellaview"@, "Satellaview"@, Family::Nintendo),
        platform("saturn"@, "Sega Saturn"@, Family::Sega),
        platform("scummvm"@, "ScummVM"@, Family::Pc),
        platform("scv"@, "Super Cassette Vision"@, Family::Otros),
        platform("sega32x"@, "Sega 32X"@, Family::Sega),
        platform("segacd"@, "Sega CD"@, Family::Sega),
        platform("segastv"@, "Sega ST-V"@, Family::Arcade),
        platform("sg1000"@, "Sega SG-1000"@, Family::Sega),
        platform("snes"@, "Super Nintendo"@, Family::Nintendo),
        platform("snes-msu1"@, "Super Nintendo MSU-1"@, Family::Nintendo),
        platform("spectravideo"@, "Spectravideo"@, Family::Retro),
        platform("sufami"@, "Sufami Turbo"@, Family::Nintendo),
        platform("supervision"@, "Watara Supervision"@, Family::Otros),
    ]
}

fn push_group4(v: &mut Vec<(&'static str, &'static str, Family)>)
    ensures
        platform_views(final(v)@) == platform_views(old(v)@) + platform_group4(),
{
    let ghost before = platform_views(v@);
    v.push(("pico8", "PICO-8", Family::Otros));
    v.push(("pinballfx3", "Pinball FX3", Family::Pc));
    v.push(("pokemini", "Pokemon Mini", Family::Nintendo));
    v.push(("ps2", "PlayStation 2", Family::Sony));
    v.push(("ps3", "PlayStation 3", Family::Sony));
    v.push(("ps4", "PlayStation 4", Family::Sony));
    v.push(("psp", "PlayStation Portable", Family::Sony));
    v.push(("psvita", "PlayStation Vita", Family::Sony));
    v.push(("psx", "PlayStation", Family::Sony));
    v.push(("pv1000", "Casio PV-1000", Family::Otros));
    v.push(("revistas", "Revistas", Family::Otros));
    v.push(("samcoupe", "SAM Coupe", Family::Retro));
    v.push(("satellaview", "Satellaview", Family::Nintendo));
    v.push(("saturn", "Sega Saturn", Family::Sega));
    v.push(("scummvm", "ScummVM", Family::Pc));
    v.push(("scv", "Super Cassette Vision", Family::Otros));
    v.push(("sega32x", "Sega 32X", Family::Sega));
    v.push(("segacd", "Sega CD", Family::Sega));
    v.push(("segastv", "Sega ST-V", Family::Arcade));
    v.push(("sg1000", "Sega SG-1000", Family::Sega));
    v.push(("snes", "Super Nintendo", Family::Nintendo));
    v.push(("snes-msu1", "Super Nintendo MSU-1", Family::Nintendo));
    v.push(("spectravideo", "Spectravideo", Family::Retro));
    v.push(("sufami", "Sufami Turbo", Family::Nintendo));
    v.push(("supervision", "Watara Supervision", Family::Otros));
    assert(platform_views(v@) =~= before + platform_group4());
}

pub open spec fn platform_group5() -> Seq<PlatformView> {
    seq![
        platform("supracan"@, "Super A'Can"@, Family::Otros),
        platform("switch"@, "Nintendo Switch"@, Family::Nintendo),
        platform("teknoparrot"@, "TeknoParrot"@, Family::Arcade),
        platform("triforce"@, "Triforce"@, Family::Arcade),
        platform("uzebox"@, "Uzebox"@, Family::Otros),
        platform("vc4000"@, "Interton VC 4000"@, Family::Otros),
        platform("vectrex"@, "Vectrex"@, Family::Retro),
        platform("vircon32"@, "Vircon32"@, Family::Otros),
        platform("virtualboy"@, "Virtual Boy"@, Family::Nintendo),
        platform("vsmile"@, "V.Smile"@, Family::Otros),
        platform("wasm4"@, "WASM-4"@, Family::Otros),
        platform("wii"@, "Nintendo Wii"@, Family::Nintendo),
        platform("wiiu"@, "Nintendo Wii U"@, Family::Nintendo),
        platform("wiiware"@, "WiiWare"@, Family::Nintendo),
        platform("windows"@, "Windows"@, Family::Pc),
        platform("wswan"@, "WonderSwan"@, Family::Otros),
        platform("wswanc"@, "WonderSwan Color"@, Family::Otros),
        platform("x1"@, "Sharp X1"@, Family::Retro),
        platform("x68000"@, "Sharp X68000"@, Family::Retro),
        platform("xbox"@, "Xbox"@, Family::Microsoft),
        platform("xbox360"@, "Xbox 360"@, Family::Microsoft),
        platform("xegs"@, "Atari XEGS"@, Family::Retro),
        platform("zmachine"@, "Z-machine"@, Family::Otros),
        platform("zx81"@, "Sinclair ZX81"@, Family::Retro),
        platform("zxspectrum"@, "ZX Spectrum"@, Family::Retro),
    ]
}

fn push_group5(v: &mut Vec<(&'static str, &'static str, Family)>)
    ensures
        platform_views(final(v)@) == platform_views(old(v)@) + platform_group5(),
{
    let ghost before = platform_views(v@);
    v.push(("supracan", "Super A'Can", Family::Otros));
    v.push(("switch", "Nintendo Switch", Family::Nintendo));
    v.push(("teknoparrot", "TeknoParrot", Family::Arcade));
    v.push(("triforce", "Triforce", Family::Arcade));
    v.push(("uzebox", "Uzebox", Family::Otros));
    v.push(("vc4000", "Interton VC 4000", Family::Otros));
    v.push(("vectrex", "Vectrex", Family::Retro));
    v.push(("vircon32", "Vircon32", Family::Otros));
    v.push(("virtualboy", "Virtual Boy", Family::Nintendo));
    v.push(("vsmile", "V.Smile", Family::Otros));
    v.push(("wasm4", "WASM-4", Family::Otros));
    v.push(("wii", "Nintendo Wii", Family::Nintendo));
    v.push(("wiiu", "Nintendo Wii U", Family::Nintendo));
    v.push(("wiiware", "WiiWare", Family::Nintendo));
    v.push(("windows", "Windows", Family::Pc));
    v.push(("wswan", "WonderSwan", Family::Otros));
    v.push(("wswanc", "WonderSwan Color", Family::Otros));
    v.push(("x1", "Sharp X1", Family::Retro));
    v.push(("x68000", "Sharp X68000", Family::Retro));
    v.push(("xbox", "Xbox", Family::Microsoft));
    v.push(("xbox360", "Xbox 360", Family::Microsoft));
    v.push(("xegs", "Atari XEGS", Family::Retro));
    v.push(("zmachine", "Z-machine", Family::Otros));
    v.push(("zx81", "Sinclair ZX81", Family::Retro));
    v.push(("zxspectrum", "ZX Spectrum", Family::Retro));
    assert(platform_views(v@) =~= before + platform_group5());
}

/// The table of known platforms: identifier, readable name, family.
pub fn platforms() -> (v: Vec<(&'static str, &'static str, Family)>)
    ensures
        platform_views(v@) == platform_table(),
{
    let mut v: Vec<(&'static str, &'static str, Family)> = Vec::new();
    assert(platform_views(v@) =~= Seq::<PlatformView>::empty());
    push_group0(&mut v);
    push_group1(&mut v);
    push_group2(&mut v);
    push_group3(&mut v);
    push_group4(&mut v);
    push_group5(&mut v);
    assert(platform_views(v@) =~= platform_table());
    v
}

/// The entry of `t` with that identifier, the first one if any.
pub open spec fn find_platform(t: Seq<PlatformView>, id: Seq<char>) -> Option<PlatformView>
    decreases t.len(),
{
    if t.len() == 0 {
        None
    } else if t[0].id == id {
        Some(t[0])
    } else {
        find_platform(t.drop_first(), id)
    }
}

/// The readable name: the table's, or the identifier with its first
/// character in capitals.
pub open spec fn display_name_of(id: Seq<char>) -> Seq<char> {
    match find_platform(platform_table(), id) {
        Some(p) => p.name,
        None => if id.len() == 0 {
            Seq::empty()
        } else {
            char_upper(id[0]) + id.drop_first()
        },
    }
}

pub open spec fn family_of(id: Seq<char>) -> Family {
    match find_platform(platform_table(), id) {
        Some(p) => p.family,
        None => Family::Otros,
    }
}

fn lookup(id: &str) -> (r: Option<(&'static str, &'static str, Family)>)
    ensures
        match r {
            Some(t) => find_platform(platform_table(), id@) == Some(platform(t.0@, t.1@, t.2)),
            None => find_platform(platform_table(), id@) is None,
        },
{
    let table = platforms();
    let ghost t = platform_table();
    let mut i: usize = 0;
    assert(t.subrange(0, t.len() as int) == t);
    while i < table.len()
        invariant
            i <= table.len(),
            platform_views(table@) == t,
            t == platform_table(),
            find_platform(t, id@) == find_platform(t.subrange(i as int, t.len() as int), id@),
        decreases table.len() - i,
    {
        let entry = table[i];
        assert(t[i as int] == platform(entry.0@, entry.1@, entry.2));
        assert(t.subrange(i as int, t.len() as int)[0] == t[i as int]);
        if crate::text::same_text(entry.0, id) {
            return Some(entry);
        }
        assert(t.subrange(i as int, t.len() as int).drop_first() == t.subrange(i + 1, t.len() as int));
        i += 1;
    }
    None
}

/// Readable name of a platform; an identifier missing from the table is
/// shown with its first character in capitals.
pub fn display_name(id: &str) -> (s: String)
    ensures
        s@ == display_name_of(id@),
{
    match lookup(id) {
        Some(entry) => owned(entry.1),
        None => {
            let cs = chars_of(id);
            if cs.len() == 0 {
                return String::new();
            }
            let mut out = string_of(&char_to_uppercase(cs[0]));
            let mut i: usize = 1;
            while i < cs.len()
                invariant
                    1 <= i <= cs.len(),
                    cs@ == id@,
                    out@ == char_upper(cs@[0]) + cs@.subrange(1, i as int),
                decreases cs.len() - i,
            {
                push_char(&mut out, cs[i]);
                assert(out@ =~= char_upper(cs@[0]) + cs@.subrange(1, i + 1));
                i += 1;
            }
            assert(cs@.subrange(1, cs.len() as int) =~= id@.drop_first());
            out
        },
    }
}

/// The family of a platform; unknown ones go to "Otros".
pub fn family(id: &str) -> (f: Family)
    ensures
        f == family_of(id@),
{
    match lookup(id) {
        Some(entry) => entry.2,
        None => Family::Otros,
    }
}

} // verus!
