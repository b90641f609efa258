//! The JSON bodies that outbound broker messages travel in, built as
//! exact text: the packet envelope around a hex-rendered wire frame, and
//! the provisioning response that names a device's follow-up topics and
//! re-deploy interval.
//!
//! Both bodies keep their keys in lexicographic order, and both splice
//! the device id, the provisioning type and the caller's decimal
//! timestamp in verbatim: in this protocol they are plain identifier
//! text with nothing to escape.  Reading the clock is the caller's part;
//! it arrives here already rendered in decimal.

use vstd::prelude::*;
use vstd::string::StringExecFns;

verus! {

/// The envelope of one outbound device packet: the frame in hex under
/// `data`, the device id and the caller's timestamp.
pub open spec fn spec_packet_envelope(
    did: Seq<char>,
    frame_hex: Seq<char>,
    mid: Seq<char>,
) -> Seq<char> {
    "{\"cmd\":\"packet\",\"data\":\""@ + frame_hex + "\",\"did\":\""@ + did + "\",\"mid\":"@
        + mid + ",\"type\":1}"@
}

/// Render the envelope of one outbound device packet.
pub fn packet_envelope(did: &str, frame_hex: &str, timestamp_decimal: &str) -> (r: String)
    ensures
        r@ == spec_packet_envelope(did@, frame_hex@, timestamp_decimal@),
{
    let mut s = String::from_str("{\"cmd\":\"packet\",\"data\":\"");
    s.append(frame_hex);
    s.append("\",\"did\":\"");
    s.append(did);
    s.append("\",\"mid\":");
    s.append(timestamp_decimal);
    s.append(",\"type\":1}");
    s
}

/// The provisioning response for a device: its follow-up message and
/// provisioning topics, the provisioning type being acknowledged, and
/// the 600-second re-deploy interval.
pub open spec fn spec_deploy_response(
    did: Seq<char>,
    provisioning_type: Seq<char>,
    mid: Seq<char>,
) -> Seq<char> {
    "{\"cmd\":\"completeProvisioning\",\"data\":{\"appInfo\":{\"host\":\"message\",\"publication\":{\"message\":\"clip/message/devices/"@
        + did + "\",\"provisioning\":\"clip/provisioning/devices/"@ + did
        + "\"}},\"deployInterval\":600,\"host\":\"message\",\"provisioningType\":\""@
        + provisioning_type + "\",\"result\":0},\"did\":\""@ + did + "\",\"mid\":"@ + mid
        + ",\"type\":0}"@
}

/// Render the provisioning response for a device.
pub fn deploy_response(did: &str, provisioning_type: &str, timestamp_decimal: &str) -> (r:
    String)
    ensures
        r@ == spec_deploy_response(did@, provisioning_type@, timestamp_decimal@),
{
    let mut s = String::from_str(
        "{\"cmd\":\"completeProvisioning\",\"data\":{\"appInfo\":{\"host\":\"message\",\"publication\":{\"message\":\"clip/message/devices/",
    );
    s.append(did);
    s.append("\",\"provisioning\":\"clip/provisioning/devices/");
    s.append(did);
    s.append("\"}},\"deployInterval\":600,\"host\":\"message\",\"provisioningType\":\"");
    s.append(provisioning_type);
    s.append("\",\"result\":0},\"did\":\"");
    s.append(did);
    s.append("\",\"mid\":");
    s.append(timestamp_decimal);
    s.append(",\"type\":0}");
    s
}

} // verus!
