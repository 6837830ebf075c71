use vstd::prelude::*;

verus! {

/// The host that serves every release archive.
pub const DOWNLOAD_HOST: &'static str = "pa.toaaa.de";

/// The base name of the release archive, without extension.
pub const ARCHIVE_BASE_NAME: &'static str = "Project-Apparatus";

/// The path segment under which the newest release is published.
pub const LATEST_SEGMENT: &'static str = "latest";

/// The URL of a given release: `https://<host>/<version>/<name>.zip`.
pub open spec fn versioned_url(version: Seq<char>) -> Seq<char> {
    "https://"@ + DOWNLOAD_HOST@ + "/"@ + version + "/"@ + ARCHIVE_BASE_NAME@ + ".zip"@
}

/// The URL of the newest release: `https://<host>/latest/<name>-latest.zip`.
pub open spec fn latest_url() -> Seq<char> {
    "https://"@ + DOWNLOAD_HOST@ + "/"@ + LATEST_SEGMENT@ + "/"@ + ARCHIVE_BASE_NAME@ + "-"@
        + LATEST_SEGMENT@ + ".zip"@
}

/// The URL fetched for an optional version identifier.
pub open spec fn download_url(version: Option<Seq<char>>) -> Seq<char> {
    match version {
        Some(v) => versioned_url(v),
        None => latest_url(),
    }
}

/// The file name under which the archive is stored locally: `<name>.zip`.
pub open spec fn archive_file_name_spec() -> Seq<char> {
    ARCHIVE_BASE_NAME@ + ".zip"@
}

/// Builds the download URL; without a version the newest release is fetched.
pub fn resolve_url(version: Option<&str>) -> (r: String)
    ensures
        r@ == download_url(
            match version {
                Some(v) => Some(v@),
                None => None,
            },
        ),
{
    let mut url = String::from_str("https://");
    url.append(DOWNLOAD_HOST);
    url.append("/");
    match version {
        Some(v) => {
            url.append(v);
            url.append("/");
            url.append(ARCHIVE_BASE_NAME);
            url.append(".zip");
        },
        None => {
            url.append(LATEST_SEGMENT);
            url.append("/");
            url.append(ARCHIVE_BASE_NAME);
            url.append("-");
            url.append(LATEST_SEGMENT);
            url.append(".zip");
        },
    }
    url
}

/// The local file name of the downloaded archive.
pub fn archive_file_name() -> (r: String)
    ensures
        r@ == archive_file_name_spec(),
{
    let mut name = String::from_str(ARCHIVE_BASE_NAME);
    name.append(".zip");
    name
}

} // verus!
