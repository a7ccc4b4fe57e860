//! The rich-presence payload shown while the application runs.
//!
//! The payload is assembled here as plain values with its fixed branding
//! fields; the process boundary converts it into the presence client's own
//! types and sends it over the client's connection. Whether an update may be
//! sent at all is decided here from the connection state.

use vstd::prelude::*;

verus! {

/// One presence update, as plain values.
#[derive(Debug)]
pub struct PresencePayload {
    /// The first detail line.
    pub details: String,
    /// The second detail line.
    pub state: String,
    /// The fixed large image key.
    pub large_image: String,
    /// The fixed large image caption.
    pub large_text: String,
    /// The small image key chosen by the caller.
    pub small_image: String,
    /// The small image caption chosen by the caller.
    pub small_text: String,
}

/// The fixed large image key.
pub open spec fn large_image_key() -> Seq<char> {
    "resuma"@
}

/// The fixed large image caption.
pub open spec fn large_text_caption() -> Seq<char> {
    "https://resuma.download"@
}

/// Assemble the presence update for the given detail lines and small image,
/// with the fixed branding fields filled in.
pub fn build_presence_payload(
    details: String,
    state: String,
    small_image: String,
    small_text: String,
) -> (r: PresencePayload)
    ensures
        r.details == details,
        r.state == state,
        r.small_image == small_image,
        r.small_text == small_text,
        r.large_image@ == large_image_key(),
        r.large_text@ == large_text_caption(),
{
    PresencePayload {
        details,
        state,
        large_image: "resuma".to_owned(),
        large_text: "https://resuma.download".to_owned(),
        small_image,
        small_text,
    }
}

/// Decide a presence update: when the client is connected, the payload to
/// send; when it is not, exactly the error the caller reports.
pub fn set_activity_payload(
    connected: bool,
    details: String,
    state: String,
    small_image: String,
    small_text: String,
) -> (r: Result<PresencePayload, String>)
    ensures
        connected ==> (r matches Ok(p) && p.details == details && p.state == state
            && p.small_image == small_image && p.small_text == small_text && p.large_image@
            == large_image_key() && p.large_text@ == large_text_caption()),
        !connected ==> (r matches Err(m) && m@ == "Discord client not connected"@),
{
    if connected {
        Ok(build_presence_payload(details, state, small_image, small_text))
    } else {
        Err("Discord client not connected".to_owned())
    }
}

} // verus!
