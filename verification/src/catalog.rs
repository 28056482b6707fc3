//! The fixed catalog of recognized time zones, in a fixed order, with a
//! human-readable display name for each: by default the last path segment
//! of the zone identifier with underscores turned into spaces, corrected
//! by a fixed table of irregular names.

use vstd::prelude::*;

use crate::chars::push_char;
use crate::chars::str_chars;
use crate::chars::str_eq;
use crate::chars::string_from_chars;
use crate::chars::views_of;

verus! {

pub open spec fn africa_names() -> Seq<Seq<char>> {
    seq!["Africa/Accra"@, "Africa/Algiers"@, "Africa/Bissau"@, "Africa/Cairo"@, "Africa/Casablanca"@, "Africa/El_Aaiun"@, "Africa/Johannesburg"@, "Africa/Khartoum"@, "Africa/Lagos"@, "Africa/Monrovia"@, "Africa/Ndjamena"@, "Africa/Nairobi"@, "Africa/Tripoli"@, "Africa/Tunis"@, "Africa/Windhoek"@]
}

pub open spec fn america_names() -> Seq<Seq<char>> {
    seq!["America/Adak"@, "America/Anchorage"@, "America/Argentina/Buenos_Aires"@, "America/Argentina/Cordoba"@, "America/Asuncion"@, "America/Barbados"@, "America/Belize"@, "America/Bogota"@, "America/Cancun"@, "America/Caracas"@, "America/Cayenne"@, "America/Chicago"@, "America/Chihuahua"@, "America/Costa_Rica"@, "America/Curacao"@, "America/Danmarkshavn"@, "America/Denver"@, "America/Detroit"@, "America/El_Salvador"@, "America/Godthab"@, "America/Guatemala"@, "America/Guayaquil"@, "America/Guyana"@, "America/Havana"@, "America/Indiana/Indianapolis"@, "America/Jamaica"@, "America/Juneau"@, "America/La_Paz"@, "America/Lima"@, "America/Los_Angeles"@, "America/Managua"@, "America/Martinique"@, "America/Menominee"@, "America/Metlakatla"@, "America/Mexico_City"@, "America/Miquelon"@, "America/Montevideo"@, "America/Nassau"@, "America/New_York"@, "America/Nome"@, "America/Noronha"@, "America/Panama"@, "America/Paramaribo"@, "America/Phoenix"@, "America/Port_of_Spain"@, "America/Port-au-Prince"@, "America/Porto_Velho"@, "America/Puerto_Rico"@, "America/Santiago"@, "America/Santo_Domingo"@, "America/Sao_Paulo"@, "America/Sitka"@, "America/St_Johns"@, "America/Tegucigalpa"@, "America/Tijuana"@, "America/Toronto"@, "America/Vancouver"@, "America/Yakutat"@]
}

pub open spec fn antarctica_names() -> Seq<Seq<char>> {
    seq!["Antarctica/Casey"@, "Antarctica/Davis"@, "Antarctica/DumontDUrville"@, "Antarctica/Mawson"@, "Antarctica/Vostok"@]
}

pub open spec fn asia_names() -> Seq<Seq<char>> {
    seq!["Asia/Aqtobe"@, "Asia/Almaty"@, "Asia/Baghdad"@, "Asia/Baku"@, "Asia/Bangkok"@, "Asia/Barnaul"@, "Asia/Beirut"@, "Asia/Brunei"@, "Asia/Chita"@, "Asia/Colombo"@, "Asia/Dhaka"@, "Asia/Ho_Chi_Minh"@, "Asia/Hong_Kong"@, "Asia/Irkutsk"@, "Asia/Jakarta"@, "Asia/Jayapura"@, "Asia/Jerusalem"@, "Asia/Kabul"@, "Asia/Kamchatka"@, "Asia/Karachi"@, "Asia/Kathmandu"@, "Asia/Khandyga"@, "Asia/Kolkata"@, "Asia/Kuala_Lumpur"@, "Asia/Makassar"@, "Asia/Manila"@, "Asia/Nicosia"@, "Asia/Novosibirsk"@, "Asia/Omsk"@, "Asia/Pyongyang"@, "Asia/Qatar"@, "Asia/Sakhalin"@, "Asia/Seoul"@, "Asia/Shanghai"@, "Asia/Taipei"@, "Asia/Tbilisi"@, "Asia/Tehran"@, "Asia/Tokyo"@, "Asia/Vladivostok"@, "Asia/Yangon"@, "Asia/Yakutsk"@, "Asia/Yekaterinburg"@, "Asia/Yerevan"@]
}

pub open spec fn atlantic_names() -> Seq<Seq<char>> {
    seq!["Atlantic/Azores"@, "Atlantic/Bermuda"@, "Atlantic/Canary"@, "Atlantic/Cape_Verde"@, "Atlantic/Faroe"@, "Atlantic/Madeira"@, "Atlantic/Reykjavik"@, "Atlantic/South_Georgia"@]
}

pub open spec fn australia_names() -> Seq<Seq<char>> {
    seq!["Australia/Adelaide"@, "Australia/Broken_Hill"@, "Australia/Currie"@, "Australia/Darwin"@, "Australia/Hobart"@, "Australia/Lord_Howe"@, "Australia/Melbourne"@, "Australia/Sydney"@]
}

pub open spec fn europe_names() -> Seq<Seq<char>> {
    seq!["Europe/Amsterdam"@, "Europe/Astrakhan"@, "Europe/Berlin"@, "Europe/Bucharest"@, "Europe/Copenhagen"@, "Europe/Gibraltar"@, "Europe/Istanbul"@, "Europe/Kiev"@, "Europe/Lisbon"@, "Europe/London"@, "Europe/Luxembourg"@, "Europe/Oslo"@, "Europe/Paris"@, "Europe/Moscow"@, "Europe/Simferopol"@, "Europe/Stockholm"@]
}

pub open spec fn indian_names() -> Seq<Seq<char>> {
    seq!["Indian/Christmas"@, "Indian/Cocos"@, "Indian/Kerguelen"@, "Indian/Mahe"@, "Indian/Maldives"@, "Indian/Mauritius"@, "Indian/Reunion"@]
}

pub open spec fn pacific_names() -> Seq<Seq<char>> {
    seq!["Pacific/Apia"@, "Pacific/Auckland"@, "Pacific/Chatham"@, "Pacific/Easter"@, "Pacific/Efate"@, "Pacific/Enderbury"@, "Pacific/Fiji"@, "Pacific/Gambier"@, "Pacific/Galapagos"@, "Pacific/Guam"@, "Pacific/Honolulu"@, "Pacific/Kiritimati"@, "Pacific/Marquesas"@, "Pacific/Noumea"@, "Pacific/Pitcairn"@, "Pacific/Rarotonga"@, "Pacific/Tahiti"@, "Pacific/Tarawa"@]
}

/// The catalog: every recognized zone identifier, in catalog order.
pub open spec fn zone_names() -> Seq<Seq<char>> {
    africa_names() + america_names() + antarctica_names() + asia_names() + atlantic_names()
        + australia_names() + europe_names() + indian_names() + pacific_names()
}

fn push_africa(v: &mut Vec<String>)
    ensures
        views_of(final(v)@) == views_of(old(v)@) + africa_names(),
{
    v.push(String::from_str("Africa/Accra"));
    v.push(String::from_str("Africa/Algiers"));
    v.push(String::from_str("Africa/Bissau"));
    v.push(String::from_str("Africa/Cairo"));
    v.push(String::from_str("Africa/Casablanca"));
    v.push(String::from_str("Africa/El_Aaiun"));
    v.push(String::from_str("Africa/Johannesburg"));
    v.push(String::from_str("Africa/Khartoum"));
    v.push(String::from_str("Africa/Lagos"));
    v.push(String::from_str("Africa/Monrovia"));
    v.push(String::from_str("Africa/Ndjamena"));
    v.push(String::from_str("Africa/Nairobi"));
    v.push(String::from_str("Africa/Tripoli"));
    v.push(String::from_str("Africa/Tunis"));
    v.push(String::from_str("Africa/Windhoek"));
    proof {
        assert(views_of(v@) =~= views_of(old(v)@) + africa_names());
    }
}

fn push_america(v: &mut Vec<String>)
    ensures
        views_of(final(v)@) == views_of(old(v)@) + america_names(),
{
    v.push(String::from_str("America/Adak"));
    v.push(String::from_str("America/Anchorage"));
    v.push(String::from_str("America/Argentina/Buenos_Aires"));
    v.push(String::from_str("America/Argentina/Cordoba"));
    v.push(String::from_str("America/Asuncion"));
    v.push(String::from_str("America/Barbados"));
    v.push(String::from_str("America/Belize"));
    v.push(String::from_str("America/Bogota"));
    v.push(String::from_str("America/Cancun"));
    v.push(String::from_str("America/Caracas"));
    v.push(String::from_str("America/Cayenne"));
    v.push(String::from_str("America/Chicago"));
    v.push(String::from_str("America/Chihuahua"));
    v.push(String::from_str("America/Costa_Rica"));
    v.push(String::from_str("America/Curacao"));
    v.push(String::from_str("America/Danmarkshavn"));
    v.push(String::from_str("America/Denver"));
    v.push(String::from_str("America/Detroit"));
    v.push(String::from_str("America/El_Salvador"));
    v.push(String::from_str("America/Godthab"));
    v.push(String::from_str("America/Guatemala"));
    v.push(String::from_str("America/Guayaquil"));
    v.push(String::from_str("America/Guyana"));
    v.push(String::from_str("America/Havana"));
    v.push(String::from_str("America/Indiana/Indianapolis"));
    v.push(String::from_str("America/Jamaica"));
    v.push(String::from_str("America/Juneau"));
    v.push(String::from_str("America/La_Paz"));
    v.push(String::from_str("America/Lima"));
    v.push(String::from_str("America/Los_Angeles"));
    v.push(String::from_str("America/Managua"));
    v.push(String::from_str("America/Martinique"));
    v.push(String::from_str("America/Menominee"));
    v.push(String::from_str("America/Metlakatla"));
    v.push(String::from_str("America/Mexico_City"));
    v.push(String::from_str("America/Miquelon"));
    v.push(String::from_str("America/Montevideo"));
    v.push(String::from_str("America/Nassau"));
    v.push(String::from_str("America/New_York"));
    v.push(String::from_str("America/Nome"));
    v.push(String::from_str("America/Noronha"));
    v.push(String::from_str("America/Panama"));
    v.push(String::from_str("America/Paramaribo"));
    v.push(String::from_str("America/Phoenix"));
    v.push(String::from_str("America/Port_of_Spain"));
    v.push(String::from_str("America/Port-au-Prince"));
    v.push(String::from_str("America/Porto_Velho"));
    v.push(String::from_str("America/Puerto_Rico"));
    v.push(String::from_str("America/Santiago"));
    v.push(String::from_str("America/Santo_Domingo"));
    v.push(String::from_str("America/Sao_Paulo"));
    v.push(String::from_str("America/Sitka"));
    v.push(String::from_str("America/St_Johns"));
    v.push(String::from_str("America/Tegucigalpa"));
    v.push(String::from_str("America/Tijuana"));
    v.push(String::from_str("America/Toronto"));
    v.push(String::from_str("America/Vancouver"));
    v.push(String::from_str("America/Yakutat"));
    proof {
        assert(views_of(v@) =~= views_of(old(v)@) + america_names());
    }
}

fn push_antarctica(v: &mut Vec<String>)
    ensures
        views_of(final(v)@) == views_of(old(v)@) + antarctica_names(),
{
    v.push(String::from_str("Antarctica/Casey"));
    v.push(String::from_str("Antarctica/Davis"));
    v.push(String::from_str("Antarctica/DumontDUrville"));
    v.push(String::from_str("Antarctica/Mawson"));
    v.push(String::from_str("Antarctica/Vostok"));
    proof {
        assert(views_of(v@) =~= views_of(old(v)@) + antarctica_names());
    }
}

fn push_asia(v: &mut Vec<String>)
    ensures
        views_of(final(v)@) == views_of(old(v)@) + asia_names(),
{
    v.push(String::from_str("Asia/Aqtobe"));
    v.push(String::from_str("Asia/Almaty"));
    v.push(String::from_str("Asia/Baghdad"));
    v.push(String::from_str("Asia/Baku"));
    v.push(String::from_str("Asia/Bangkok"));
    v.push(String::from_str("Asia/Barnaul"));
    v.push(String::from_str("Asia/Beirut"));
    v.push(String::from_str("Asia/Brunei"));
    v.push(String::from_str("Asia/Chita"));
    v.push(String::from_str("Asia/Colombo"));
    v.push(String::from_str("Asia/Dhaka"));
    v.push(String::from_str("Asia/Ho_Chi_Minh"));
    v.push(String::from_str("Asia/Hong_Kong"));
    v.push(String::from_str("Asia/Irkutsk"));
    v.push(String::from_str("Asia/Jakarta"));
    v.push(String::from_str("Asia/Jayapura"));
    v.push(String::from_str("Asia/Jerusalem"));
    v.push(String::from_str("Asia/Kabul"));
    v.push(String::from_str("Asia/Kamchatka"));
    v.push(String::from_str("Asia/Karachi"));
    v.push(String::from_str("Asia/Kathmandu"));
    v.push(String::from_str("Asia/Khandyga"));
    v.push(String::from_str("Asia/Kolkata"));
    v.push(String::from_str("Asia/Kuala_Lumpur"));
    v.push(String::from_str("Asia/Makassar"));
    v.push(String::from_str("Asia/Manila"));
    v.push(String::from_str("Asia/Nicosia"));
    v.push(String::from_str("Asia/Novosibirsk"));
    v.push(String::from_str("Asia/Omsk"));
    v.push(String::from_str("Asia/Pyongyang"));
    v.push(String::from_str("Asia/Qatar"));
    v.push(String::from_str("Asia/Sakhalin"));
    v.push(String::from_str("Asia/Seoul"));
    v.push(String::from_str("Asia/Shanghai"));
    v.push(String::from_str("Asia/Taipei"));
    v.push(String::from_str("Asia/Tbilisi"));
    v.push(String::from_str("Asia/Tehran"));
    v.push(String::from_str("Asia/Tokyo"));
    v.push(String::from_str("Asia/Vladivostok"));
    v.push(String::from_str("Asia/Yangon"));
    v.push(String::from_str("Asia/Yakutsk"));
    v.push(String::from_str("Asia/Yekaterinburg"));
    v.push(String::from_str("Asia/Yerevan"));
    proof {
        assert(views_of(v@) =~= views_of(old(v)@) + asia_names());
    }
}

fn push_atlantic(v: &mut Vec<String>)
    ensures
        views_of(final(v)@) == views_of(old(v)@) + atlantic_names(),
{
    v.push(String::from_str("Atlantic/Azores"));
    v.push(String::from_str("Atlantic/Bermuda"));
    v.push(String::from_str("Atlantic/Canary"));
    v.push(String::from_str("Atlantic/Cape_Verde"));
    v.push(String::from_str("Atlantic/Faroe"));
    v.push(String::from_str("Atlantic/Madeira"));
    v.push(String::from_str("Atlantic/Reykjavik"));
    v.push(String::from_str("Atlantic/South_Georgia"));
    proof {
        assert(views_of(v@) =~= views_of(old(v)@) + atlantic_names());
    }
}

fn push_australia(v: &mut Vec<String>)
    ensures
        views_of(final(v)@) == views_of(old(v)@) + australia_names(),
{
    v.push(String::from_str("Australia/Adelaide"));
    v.push(String::from_str("Australia/Broken_Hill"));
    v.push(String::from_str("Australia/Currie"));
    v.push(String::from_str("Australia/Darwin"));
    v.push(String::from_str("Australia/Hobart"));
    v.push(String::from_str("Australia/Lord_Howe"));
    v.push(String::from_str("Australia/Melbourne"));
    v.push(String::from_str("Australia/Sydney"));
    proof {
        assert(views_of(v@) =~= views_of(old(v)@) + australia_names());
    }
}

fn push_europe(v: &mut Vec<String>)
    ensures
        views_of(final(v)@) == views_of(old(v)@) + europe_names(),
{
    v.push(String::from_str("Europe/Amsterdam"));
    v.push(String::from_str("Europe/Astrakhan"));
    v.push(String::from_str("Europe/Berlin"));
    v.push(String::from_str("Europe/Bucharest"));
    v.push(String::from_str("Europe/Copenhagen"));
    v.push(String::from_str("Europe/Gibraltar"));
    v.push(String::from_str("Europe/Istanbul"));
    v.push(String::from_str("Europe/Kiev"));
    v.push(String::from_str("Europe/Lisbon"));
    v.push(String::from_str("Europe/London"));
    v.push(String::from_str("Europe/Luxembourg"));
    v.push(String::from_str("Europe/Oslo"));
    v.push(String::from_str("Europe/Paris"));
    v.push(String::from_str("Europe/Moscow"));
    v.push(String::from_str("Europe/Simferopol"));
    v.push(String::from_str("Europe/Stockholm"));
    proof {
        assert(views_of(v@) =~= views_of(old(v)@) + europe_names());
    }
}

fn push_indian(v: &mut Vec<String>)
    ensures
        views_of(final(v)@) == views_of(old(v)@) + indian_names(),
{
    v.push(String::from_str("Indian/Christmas"));
    v.push(String::from_str("Indian/Cocos"));
    v.push(String::from_str("Indian/Kerguelen"));
    v.push(String::from_str("Indian/Mahe"));
    v.push(String::from_str("Indian/Maldives"));
    v.push(String::from_str("Indian/Mauritius"));
    v.push(String::from_str("Indian/Reunion"));
    proof {
        assert(views_of(v@) =~= views_of(old(v)@) + indian_names());
    }
}

fn push_pacific(v: &mut Vec<String>)
    ensures
        views_of(final(v)@) == views_of(old(v)@) + pacific_names(),
{
    v.push(String::from_str("Pacific/Apia"));
    v.push(String::from_str("Pacific/Auckland"));
    v.push(String::from_str("Pacific/Chatham"));
    v.push(String::from_str("Pacific/Easter"));
    v.push(String::from_str("Pacific/Efate"));
    v.push(String::from_str("Pacific/Enderbury"));
    v.push(String::from_str("Pacific/Fiji"));
    v.push(String::from_str("Pacific/Gambier"));
    v.push(String::from_str("Pacific/Galapagos"));
    v.push(String::from_str("Pacific/Guam"));
    v.push(String::from_str("Pacific/Honolulu"));
    v.push(String::from_str("Pacific/Kiritimati"));
    v.push(String::from_str("Pacific/Marquesas"));
    v.push(String::from_str("Pacific/Noumea"));
    v.push(String::from_str("Pacific/Pitcairn"));
    v.push(String::from_str("Pacific/Rarotonga"));
    v.push(String::from_str("Pacific/Tahiti"));
    v.push(String::from_str("Pacific/Tarawa"));
    proof {
        assert(views_of(v@) =~= views_of(old(v)@) + pacific_names());
    }
}

/// The ordered list of recognized zone identifiers.
pub fn zones() -> (r: Vec<String>)
    ensures
        views_of(r@) == zone_names(),
{
    let mut v: Vec<String> = Vec::new();
    proof {
        assert(views_of(v@) =~= Seq::<Seq<char>>::empty());
    }
    push_africa(&mut v);
    push_america(&mut v);
    push_antarctica(&mut v);
    push_asia(&mut v);
    push_atlantic(&mut v);
    push_australia(&mut v);
    push_europe(&mut v);
    push_indian(&mut v);
    push_pacific(&mut v);
    proof {
        assert(views_of(v@) =~= zone_names());
    }
    v
}

/// What follows the last '/' of an identifier (the identifier itself when
/// it has none).
pub open spec fn after_last_slash(z: Seq<char>) -> Seq<char>
    decreases z.len(),
{
    if z.len() == 0 {
        z
    } else if z.last() == '/' {
        Seq::empty()
    } else {
        after_last_slash(z.drop_last()).push(z.last())
    }
}

/// Underscores turned into spaces.
pub open spec fn spaced(z: Seq<char>) -> Seq<char> {
    z.map_values(
        |c: char|
            if c == '_' {
                ' '
            } else {
                c
            },
    )
}

/// The display name derived from an identifier when no override applies.
pub open spec fn default_display(z: Seq<char>) -> Seq<char> {
    spaced(after_last_slash(z))
}

/// The display name of a zone identifier: a fixed override for the
/// irregular names, otherwise the derived default.
pub open spec fn display_name_spec(z: Seq<char>) -> Seq<char> {
    if z == "Antarctica/Casey"@ {
        "Casey Island"@
    } else if z == "Atlantic/Canary"@ {
        "Canary Islands"@
    } else if z == "Atlantic/Faroe"@ {
        "Faroe Islands"@
    } else if z == "America/Curacao"@ {
        "Curaçao"@
    } else if z == "America/PortauPrince"@ {
        "Port-au-prince"@
    } else if z == "America/St_Johns"@ {
        "St John's"@
    } else if z == "Antarctica/DumontDUrville"@ {
        "Dumont d'Urville"@
    } else if z == "Australia/Lord_Howe"@ {
        "Lord Howe Island"@
    } else if z == "Indian/Christmas"@ {
        "Christmas Island"@
    } else if z == "Indian/Cocos"@ {
        "Cocos Islands"@
    } else if z == "Pacific/Chatham"@ {
        "Chatham Islands"@
    } else if z == "Pacific/Easter"@ {
        "Easter Island"@
    } else if z == "Pacific/Enderbury"@ {
        "Enderbury Island"@
    } else if z == "Pacific/Gambier"@ {
        "Gambier Islands"@
    } else if z == "Pacific/Marquesas"@ {
        "Marquesas Islands"@
    } else {
        default_display(z)
    }
}

/// An identifier without '/' is its own last segment.
proof fn lemma_after_last_slash_none(z: Seq<char>)
    requires
        forall|i: int| 0 <= i < z.len() ==> z[i] != '/',
    ensures
        after_last_slash(z) == z,
    decreases z.len(),
{
    if z.len() > 0 {
        assert(forall|i: int|
            0 <= i < z.drop_last().len() ==> #[trigger] z.drop_last()[i] == z[i]);
        lemma_after_last_slash_none(z.drop_last());
        assert(z.drop_last().push(z.last()) =~= z);
    }
}

/// When the last '/' stands at `k`, the last segment is what follows it.
proof fn lemma_after_last_slash_at(z: Seq<char>, k: int)
    requires
        0 <= k < z.len(),
        z[k] == '/',
        forall|i: int| k < i < z.len() ==> z[i] != '/',
    ensures
        after_last_slash(z) == z.subrange(k + 1, z.len() as int),
    decreases z.len(),
{
    if k == z.len() - 1 {
        assert(z.subrange(k + 1, z.len() as int) =~= Seq::<char>::empty());
    } else {
        assert(z.last() != '/');
        assert(forall|i: int|
            0 <= i < z.drop_last().len() ==> #[trigger] z.drop_last()[i] == z[i]);
        lemma_after_last_slash_at(z.drop_last(), k);
        assert(z.drop_last().subrange(k + 1, z.drop_last().len() as int).push(z.last())
            =~= z.subrange(k + 1, z.len() as int));
    }
}

/// The derived display name: the last path segment with underscores
/// turned into spaces.
fn default_display_exec(zone: &str) -> (r: String)
    ensures
        r@ == default_display(zone@),
{
    let cs = str_chars(zone);
    let n = cs.len();
    let mut start: usize = 0;
    let mut i: usize = 0;
    while i < n
        invariant
            0 <= i <= n,
            n == cs@.len(),
            cs@ == zone@,
            start == 0 || (1 <= start <= i && zone@[start - 1] == '/'),
            start <= i,
            forall|l: int| start <= l < i ==> zone@[l] != '/',
        decreases n - i,
    {
        if cs[i] == '/' {
            start = i + 1;
        }
        i = i + 1;
    }
    let ghost seg = zone@.subrange(start as int, n as int);
    let mut out: Vec<char> = Vec::new();
    let mut i: usize = start;
    while i < n
        invariant
            start <= i <= n,
            n == cs@.len(),
            cs@ == zone@,
            seg == zone@.subrange(start as int, n as int),
            out@.len() == i - start,
            forall|l: int|
                0 <= l < out@.len() ==> out@[l] == (if seg[l] == '_' {
                    ' '
                } else {
                    seg[l]
                }),
        decreases n - i,
    {
        let c = cs[i];
        if c == '_' {
            out.push(' ');
        } else {
            out.push(c);
        }
        i = i + 1;
    }
    proof {
        assert(out@ =~= spaced(seg));
    }
    let r = string_from_chars(&out);
    proof {
        if start == 0 {
            lemma_after_last_slash_none(zone@);
            assert(seg =~= zone@);
        } else {
            lemma_after_last_slash_at(zone@, start - 1);
        }
    }
    r
}

/// The display name of a zone identifier.
pub fn display_name(zone: &str) -> (r: String)
    ensures
        r@ == display_name_spec(zone@),
{
    if str_eq(zone, "Antarctica/Casey") {
        return String::from_str("Casey Island");
    }
    if str_eq(zone, "Atlantic/Canary") {
        return String::from_str("Canary Islands");
    }
    if str_eq(zone, "Atlantic/Faroe") {
        return String::from_str("Faroe Islands");
    }
    if str_eq(zone, "America/Curacao") {
        return String::from_str("Curaçao");
    }
    if str_eq(zone, "America/PortauPrince") {
        return String::from_str("Port-au-prince");
    }
    if str_eq(zone, "America/St_Johns") {
        return String::from_str("St John's");
    }
    if str_eq(zone, "Antarctica/DumontDUrville") {
        return String::from_str("Dumont d'Urville");
    }
    if str_eq(zone, "Australia/Lord_Howe") {
        return String::from_str("Lord Howe Island");
    }
    if str_eq(zone, "Indian/Christmas") {
        return String::from_str("Christmas Island");
    }
    if str_eq(zone, "Indian/Cocos") {
        return String::from_str("Cocos Islands");
    }
    if str_eq(zone, "Pacific/Chatham") {
        return String::from_str("Chatham Islands");
    }
    if str_eq(zone, "Pacific/Easter") {
        return String::from_str("Easter Island");
    }
    if str_eq(zone, "Pacific/Enderbury") {
        return String::from_str("Enderbury Island");
    }
    if str_eq(zone, "Pacific/Gambier") {
        return String::from_str("Gambier Islands");
    }
    if str_eq(zone, "Pacific/Marquesas") {
        return String::from_str("Marquesas Islands");
    }
    default_display_exec(zone)
}

} // verus!