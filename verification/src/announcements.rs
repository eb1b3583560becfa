//! Announcements published for the application.
use vstd::prelude::*;
use crate::error::KashshafError;
use crate::text::{push_signed_decimal, signed_decimal};

verus! {

/// Where the announcements are published.
pub const ANNOUNCEMENTS_URL: &'static str = "https://cdn.kashshaf.com/announcements.json";

/// The one announcements schema this application reads.
pub const SUPPORTED_ANNOUNCEMENTS_SCHEMA: i64 = 1;

/// Announcement action button
pub struct AnnouncementAction {
    pub label: String,
    pub url: String,
}

/// Announcement entry
pub struct Announcement {
    pub id: String,
    pub title: String,
    pub body: String,
    pub body_format: String,
    /// Published under the name `type`.
    pub announcement_type: String,
    pub priority: String,
    pub target: String,
    pub min_app_version: Option<String>,
    pub max_app_version: Option<String>,
    pub starts_at: String,
    pub expires_at: Option<String>,
    pub dismissible: bool,
    pub show_once: bool,
    pub action: Option<AnnouncementAction>,
}

/// Announcements manifest structure from CDN
pub struct AnnouncementsManifest {
    pub schema_version: i64,
    pub announcements: Vec<Announcement>,
}

/// `Unsupported announcements schema version: <v>`.
pub open spec fn unsupported_schema_message(v: i64) -> Seq<char> {
    "Unsupported announcements schema version: "@ + signed_decimal(v as int)
}

/// Accepts a fetched manifest only when it uses the supported schema.
pub fn check_announcements_schema(manifest: AnnouncementsManifest) -> (r: Result<
    AnnouncementsManifest,
    KashshafError,
>)
    ensures
        manifest.schema_version == SUPPORTED_ANNOUNCEMENTS_SCHEMA ==> r == Ok::<
            AnnouncementsManifest,
            KashshafError,
        >(manifest),
        manifest.schema_version != SUPPORTED_ANNOUNCEMENTS_SCHEMA ==> (r matches Err(
            KashshafError::Other(m),
        ) && m@ == unsupported_schema_message(manifest.schema_version)),
{
    if manifest.schema_version != SUPPORTED_ANNOUNCEMENTS_SCHEMA {
        let mut m = String::from_str("Unsupported announcements schema version: ");
        push_signed_decimal(&mut m, manifest.schema_version);
        return Err(KashshafError::Other(m));
    }
    Ok(manifest)
}

} // verus!
