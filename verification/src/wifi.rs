//! Wi-Fi Direct hand-over: the credentials peers exchange over Bluetooth, and the
//! WLAN profile that joins their hotspot.
use vstd::prelude::*;
use vstd::utf8::{decode_utf8, valid_utf8};

use crate::bytes::copy_range;
use crate::text::{ascii_chars, decimal_bytes, decimal_string, hex_upper, hex_upper_bytes};

verus! {

/// What `String::from_utf8_lossy` makes of `bytes`.
pub uninterp spec fn utf8_lossy(bytes: Seq<u8>) -> Seq<char>;

/// Calls `String::from_utf8_lossy` of std. Claims: the result is the named lossy
/// decoding, which for valid UTF-8 is the plain decoding (as its documentation says).
#[verifier::external_body]
fn lossy_string(bytes: &[u8]) -> (s: String)
    ensures
        s@ == utf8_lossy(bytes@),
        valid_utf8(bytes@) ==> s@ == decode_utf8(bytes@),
{
    String::from_utf8_lossy(bytes).to_string()
}

/// The dotted-decimal notation of an IPv4 address.
pub open spec fn spec_ipv4(a: u8, b: u8, c: u8, d: u8) -> Seq<char> {
    ascii_chars(decimal_bytes(a as nat)) + seq!['.'] + ascii_chars(decimal_bytes(b as nat)) + seq![
        '.',
    ] + ascii_chars(decimal_bytes(c as nat)) + seq!['.'] + ascii_chars(decimal_bytes(d as nat))
}

/// Writes an IPv4 address in dotted-decimal notation.
pub fn ipv4_string(a: u8, b: u8, c: u8, d: u8) -> (s: String)
    ensures
        s@ == spec_ipv4(a, b, c, d),
{
    let dot = ".";
    proof {
        reveal_strlit(".");
    }
    let mut s = decimal_string(a as u64);
    s.append(dot);
    let sb = decimal_string(b as u64);
    s.append(sb.as_str());
    s.append(dot);
    let sc = decimal_string(c as u64);
    s.append(sc.as_str());
    s.append(dot);
    let sd = decimal_string(d as u64);
    s.append(sd.as_str());
    assert(s@ =~= spec_ipv4(a, b, c, d));
    s
}

/// A hotspot to join: the group owner's address, the network name and the passphrase.
pub struct HotspotCredentials {
    pub go_ip: String,
    pub ssid: String,
    pub pass: String,
}

/// The credentials a peer writes over Bluetooth fit in the buffer: four address
/// bytes, a length-prefixed name, a length-prefixed passphrase.
pub open spec fn credentials_fit(buf: Seq<u8>) -> bool {
    buf.len() >= 6 ==> {
        let ssid_len = buf[4] as int;
        &&& 6 + ssid_len <= buf.len()
        &&& 6 + ssid_len + buf[5 + ssid_len] as int <= buf.len()
    }
}

/// Reads the hotspot credentials a peer wrote over Bluetooth; `None` for a write of
/// fewer than six bytes. The name and passphrase are decoded lossily.
pub fn parse_hotspot_credentials(buf: &[u8]) -> (res: Option<HotspotCredentials>)
    requires
        credentials_fit(buf@),
    ensures
        buf@.len() < 6 ==> res is None,
        buf@.len() >= 6 ==> (res matches Some(c) && {
            let ssid_len = buf@[4] as int;
            let pass_len = buf@[5 + ssid_len] as int;
            &&& c.go_ip@ == spec_ipv4(buf@[0], buf@[1], buf@[2], buf@[3])
            &&& c.ssid@ == utf8_lossy(buf@.subrange(5, 5 + ssid_len))
            &&& c.pass@ == utf8_lossy(buf@.subrange(6 + ssid_len, 6 + ssid_len + pass_len))
        }),
{
    if buf.len() < 6 {
        return None;
    }
    let go_ip = ipv4_string(buf[0], buf[1], buf[2], buf[3]);
    let ssid_len = buf[4] as usize;
    let ssid = lossy_string(copy_range(buf, 5, 5 + ssid_len).as_slice());
    let pass_at = 5 + ssid_len;
    let pass_len = buf[pass_at] as usize;
    let pass = lossy_string(copy_range(buf, pass_at + 1, pass_at + 1 + pass_len).as_slice());
    Some(HotspotCredentials { go_ip, ssid, pass })
}

/// The Wi-Fi Direct group a peer reports once its hotspot is up (status byte 1):
/// the owner's address, then a length-prefixed name and passphrase, each read only
/// when it fits, the name and passphrase left empty otherwise.
pub open spec fn spec_group_info(data: Seq<u8>) -> Option<(Seq<char>, Seq<char>, Seq<char>)> {
    if data.len() >= 7 && data[0] == 1 {
        let ip = spec_ipv4(data[1], data[2], data[3], data[4]);
        if data.len() > 7 {
            let ssid_len = data[7] as int;
            let ssid_fits = data.len() >= 8 + ssid_len;
            let ssid = if ssid_fits {
                utf8_lossy(data.subrange(8, 8 + ssid_len))
            } else {
                Seq::empty()
            };
            let after = if ssid_fits {
                8 + ssid_len
            } else {
                8
            };
            if data.len() > after {
                let pass_len = data[after] as int;
                let pass = if data.len() >= after + 1 + pass_len {
                    utf8_lossy(data.subrange(after + 1, after + 1 + pass_len))
                } else {
                    Seq::empty()
                };
                Some((ip, ssid, pass))
            } else {
                Some((ip, ssid, Seq::empty()))
            }
        } else {
            Some((ip, Seq::empty(), Seq::empty()))
        }
    } else {
        None
    }
}

/// Reads the Wi-Fi Direct group information a peer reports; `None` while its hotspot
/// is not up.
pub fn parse_group_info(data: &[u8]) -> (res: Option<HotspotCredentials>)
    ensures
        match spec_group_info(data@) {
            Some((ip, ssid, pass)) => (res matches Some(c) && c.go_ip@ == ip && c.ssid@ == ssid
                && c.pass@ == pass),
            None => res is None,
        },
{
    let len = data.len();
    if !(len >= 7 && data[0] == 1) {
        return None;
    }
    let go_ip = ipv4_string(data[1], data[2], data[3], data[4]);
    let mut ssid = String::new();
    let mut pass = String::new();
    let mut offset: usize = 7;
    if len > offset {
        let ssid_len = data[offset] as usize;
        offset = offset + 1;
        if len >= offset + ssid_len {
            ssid = lossy_string(copy_range(data, offset, offset + ssid_len).as_slice());
            offset = offset + ssid_len;
        }
        if len > offset {
            let pass_len = data[offset] as usize;
            offset = offset + 1;
            if len >= offset + pass_len {
                pass = lossy_string(copy_range(data, offset, offset + pass_len).as_slice());
            }
        }
    }
    Some(HotspotCredentials { go_ip, ssid, pass })
}

/// The uppercase hexadecimal notation of the UTF-8 bytes of a network name, as a WLAN
/// profile writes it.
pub fn ssid_hex(ssid: &str) -> (hex: String)
    ensures
        hex@ == ascii_chars(hex_upper_bytes(vstd::utf8::encode_utf8(ssid@))),
{
    hex_upper(ssid.as_bytes())
}


/// The WLAN profile (XML) that joins the WPA2 network `ssid` with passphrase `pass`;
/// `hex` is the network name in hexadecimal.
pub open spec fn spec_wlan_profile(ssid: Seq<char>, hex: Seq<char>, pass: Seq<char>) -> Seq<char> {
    "<?xml version=\"1.0\"?>\n<WLANProfile xmlns=\"http://www.microsoft.com/networking/WLAN/profile/v1\">\n    <name>"@ + ssid + "</name>\n    <SSIDConfig>\n        <SSID>\n            <hex>"@ + hex + "</hex>\n            <name>"@ + ssid
        + "</name>\n        </SSID>\n    </SSIDConfig>\n    <connectionType>ESS</connectionType>\n    <connectionMode>manual</connectionMode>\n    <MSM>\n        <security>\n            <authEncryption>\n                <authentication>WPA2PSK</authentication>\n                <encryption>AES</encryption>\n                <useOneX>false</useOneX>\n            </authEncryption>\n            <sharedKey>\n                <keyType>passPhrase</keyType>\n                <protected>false</protected>\n                <keyMaterial>"@ + pass + "</keyMaterial>\n            </sharedKey>\n        </security>\n    </MSM>\n</WLANProfile>"@
}

/// Writes the WLAN profile that joins a peer's hotspot.
pub fn wlan_profile_xml(ssid: &str, pass: &str) -> (xml: String)
    ensures
        xml@ == spec_wlan_profile(
            ssid@,
            ascii_chars(hex_upper_bytes(vstd::utf8::encode_utf8(ssid@))),
            pass@,
        ),
{
    let hex = ssid_hex(ssid);
    let mut xml = String::from_str("<?xml version=\"1.0\"?>\n<WLANProfile xmlns=\"http://www.microsoft.com/networking/WLAN/profile/v1\">\n    <name>");
    xml.append(ssid);
    xml.append("</name>\n    <SSIDConfig>\n        <SSID>\n            <hex>");
    xml.append(hex.as_str());
    xml.append("</hex>\n            <name>");
    xml.append(ssid);
    xml.append("</name>\n        </SSID>\n    </SSIDConfig>\n    <connectionType>ESS</connectionType>\n    <connectionMode>manual</connectionMode>\n    <MSM>\n        <security>\n            <authEncryption>\n                <authentication>WPA2PSK</authentication>\n                <encryption>AES</encryption>\n                <useOneX>false</useOneX>\n            </authEncryption>\n            <sharedKey>\n                <keyType>passPhrase</keyType>\n                <protected>false</protected>\n                <keyMaterial>");
    xml.append(pass);
    xml.append("</keyMaterial>\n            </sharedKey>\n        </security>\n    </MSM>\n</WLANProfile>");
    xml
}

/// Why the Wi-Fi Direct side could not be set up.
#[derive(Debug, Clone, Copy, PartialEq, Eq, Structural)]
pub enum WifiDirectError {
    /// The platform refused to listen for Wi-Fi Direct connections.
    ListenerUnavailable,
}

/// Prepares to accept Wi-Fi Direct connections. Hotspots are joined through a WLAN
/// profile instead of a platform listener, so there is nothing to set up and this
/// always succeeds.
pub fn init_wifi_direct_listener() -> (res: Result<(), WifiDirectError>)
    ensures
        res is Ok,
{
    Ok(())
}

/// A group report (status byte 1, at least seven bytes) always gives credentials;
/// the owner's address is the dotted-decimal notation of bytes 1 to 4, in that order,
/// and a name whose length byte fits is the lossy decoding of the bytes after it.
pub proof fn lemma_group_info_fields(data: Seq<u8>)
    ensures
        (data.len() >= 7 && data[0] == 1) == (spec_group_info(data) is Some),
        data.len() >= 7 && data[0] == 1 ==> spec_group_info(data).unwrap().0 == ascii_chars(
            decimal_bytes(data[1] as nat),
        ) + seq!['.'] + ascii_chars(decimal_bytes(data[2] as nat)) + seq!['.'] + ascii_chars(
            decimal_bytes(data[3] as nat),
        ) + seq!['.'] + ascii_chars(decimal_bytes(data[4] as nat)),
        data.len() >= 8 && data[0] == 1 && data.len() >= 8 + data[7] as int ==> spec_group_info(
            data,
        ).unwrap().1 == utf8_lossy(data.subrange(8, 8 + data[7] as int)),
        data.len() == 7 && data[0] == 1 ==> spec_group_info(data).unwrap().1 == Seq::<char>::empty()
            && spec_group_info(data).unwrap().2 == Seq::<char>::empty(),
        data.len() >= 8 && data[0] == 1 && data.len() < 8 + data[7] as int ==> spec_group_info(
            data,
        ).unwrap().1 == Seq::<char>::empty(),
        data.len() >= 8 && data[0] == 1 ==> ({
            let after = if data.len() >= 8 + data[7] as int {
                8 + data[7] as int
            } else {
                8
            };
            &&& (data.len() > after && data.len() >= after + 1 + data[after] as int)
                ==> spec_group_info(data).unwrap().2 == utf8_lossy(
                data.subrange(after + 1, after + 1 + data[after] as int),
            )
            &&& !(data.len() > after && data.len() >= after + 1 + data[after] as int)
                ==> spec_group_info(data).unwrap().2 == Seq::<char>::empty()
        }),
{
}

} // verus!
