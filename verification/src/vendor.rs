//! Hardware addresses, and the companies that they are registered for.
use crate::action::MacAddr;
use vstd::prelude::*;

verus! {

/// A hexadecimal digit, in small letters.
pub open spec fn hex_digit(d: nat) -> char {
    if d < 10 {
        (d + 48) as char
    } else {
        (d + 87) as char
    }
}

/// A byte as two hexadecimal digits.
pub open spec fn hex_pair(byte: u8) -> Seq<char> {
    seq![hex_digit(byte as nat / 16), hex_digit(byte as nat % 16)]
}

/// A hardware address as hexadecimal pairs with colons between them.
pub open spec fn mac_text(mac: MacAddr) -> Seq<char> {
    hex_pair(mac.0).push(':') + hex_pair(mac.1).push(':') + hex_pair(mac.2).push(':') + hex_pair(
        mac.3,
    ).push(':') + hex_pair(mac.4).push(':') + hex_pair(mac.5)
}

/// Calls `to_string` of `pnet::util::MacAddr`, which writes the six bytes as pairs of hexadecimal
/// digits, in small letters, with colons between them.
#[verifier::external_body]
pub(crate) fn format_mac(mac: MacAddr) -> (s: String)
    ensures
        s@ == mac_text(mac),
{
    pnet::util::MacAddr::new(mac.0, mac.1, mac.2, mac.3, mac.4, mac.5).to_string()
}

/// `mac_oui::Oui`, the register of the companies that hardware addresses are assigned to.
#[verifier::external_type_specification]
#[verifier::external_body]
pub struct ExOui(mac_oui::Oui);

/// What the register `db` holds: for the text of every hardware address that it knows, the name of
/// the company.
pub uninterp spec fn oui_companies(db: mac_oui::Oui) -> Map<Seq<char>, Seq<char>>;

/// Calls `mac_oui::Oui::default`, which reads the register that comes with the crate, and succeeds.
/// What the register holds is not said.
#[verifier::external_body]
pub(crate) fn load_oui() -> (db: Option<mac_oui::Oui>)
    ensures
        db is Some,
{
    mac_oui::Oui::default().ok()
}

/// Calls `mac_oui::Oui::lookup_by_mac` and takes the company's name: it is the one that the
/// register holds for `mac`, and there is none where the register holds none or `mac` is no
/// hardware address.
#[verifier::external_body]
pub(crate) fn company_of(db: &mac_oui::Oui, mac: &str) -> (company: Option<String>)
    ensures
        company is Some == oui_companies(*db).contains_key(mac@),
        company matches Some(name) ==> name@ == oui_companies(*db)[mac@],
{
    match db.lookup_by_mac(mac) {
        Ok(Some(entry)) => Some(entry.company_name.clone()),
        Ok(None) => None,
        Err(_) => None,
    }
}

/// The value of a hexadecimal digit in small letters.
pub open spec fn hex_value(c: char) -> int {
    if '0' <= c <= '9' {
        c as int - '0' as int
    } else {
        c as int - 'a' as int + 10
    }
}

/// Whether `c` is a hexadecimal digit in small letters.
pub open spec fn is_hex(c: char) -> bool {
    '0' <= c <= '9' || 'a' <= c <= 'f'
}

/// Whether the pair of characters of `s` at `i` are the hexadecimal digits of `byte`.
pub open spec fn pair_at(s: Seq<char>, i: int, byte: u8) -> bool {
    is_hex(s[i]) && is_hex(s[i + 1]) && 16 * hex_value(s[i]) + hex_value(s[i + 1]) == byte
}

/// A hardware address is written as the hexadecimal digits of its six bytes, two for each, with colons
/// between them.
pub proof fn law_mac_notation(mac: MacAddr)
    ensures
        ({
            let s = mac_text(mac);
            &&& s.len() == 17
            &&& s[2] == ':' && s[5] == ':' && s[8] == ':' && s[11] == ':' && s[14] == ':'
            &&& pair_at(s, 0, mac.0)
            &&& pair_at(s, 3, mac.1)
            &&& pair_at(s, 6, mac.2)
            &&& pair_at(s, 9, mac.3)
            &&& pair_at(s, 12, mac.4)
            &&& pair_at(s, 15, mac.5)
        }),
{
}

} // verus!
