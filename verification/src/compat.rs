//! Where the Steam Linux Runtime images are fetched from.

use vstd::prelude::*;

verus! {

/// The processor the runtime is wanted for.
#[derive(PartialEq, Eq, Debug, Clone, Copy, Structural)]
pub enum Arch {
    X86_64,
    Aarch64,
    Other,
}

/// The code name of a runtime edition in its archive's name.
pub open spec fn steamrt_code_spec(edition: Seq<char>) -> Option<Seq<char>> {
    if edition == "steamrt3"@ {
        Some("sniper"@)
    } else if edition == "steamrt4"@ {
        Some("4"@)
    } else {
        None
    }
}

/// The archive of a runtime edition for a processor.
pub open spec fn steamrt_archive_spec(edition: Seq<char>, arch: Arch) -> Option<Seq<char>> {
    match steamrt_code_spec(edition) {
        Some(code) => match arch {
            Arch::Aarch64 => Some("SteamLinuxRuntime_"@ + code + "-arm64.tar.xz"@),
            Arch::X86_64 => Some("SteamLinuxRuntime_"@ + code + ".tar.xz"@),
            Arch::Other => None,
        },
        None => None,
    }
}

/// The address of `file` among the images of `edition` on `branch`, with a
/// cache-busting `token`.
pub open spec fn steamrt_url_spec(edition: Seq<char>, branch: Seq<char>, file: Seq<char>, token: Seq<char>) -> Seq<char> {
    "https://repo.steampowered.com/"@ + edition + "/images/"@ + branch + "/"@ + file + "?versions="@ + token
}

/// The code name of a runtime edition (`steamrt3` is `sniper`, `steamrt4`
/// is `4`), or none for another edition.
pub fn steamrt_code(edition: &str) -> (code: Option<&'static str>)
    ensures
        match code {
            Some(c) => steamrt_code_spec(edition@) == Some(c@),
            None => steamrt_code_spec(edition@) is None,
        },
{
    let e = edition.to_owned();
    let r3 = "steamrt3".to_owned();
    let r4 = "steamrt4".to_owned();
    if e == r3 {
        proof { reveal_strlit("sniper"); }
        Some("sniper")
    } else if e == r4 {
        proof { reveal_strlit("4"); }
        Some("4")
    } else {
        None
    }
}

/// The archive of a runtime edition for a processor, or none for an
/// unknown edition or another processor.
pub fn steamrt_archive(edition: &str, arch: Arch) -> (archive: Option<String>)
    ensures
        match archive {
            Some(a) => steamrt_archive_spec(edition@, arch) == Some(a@),
            None => steamrt_archive_spec(edition@, arch) is None,
        },
{
    match steamrt_code(edition) {
        Some(code) => match arch {
            Arch::Aarch64 => {
                let mut a = String::from_str("SteamLinuxRuntime_");
                a.append(code);
                a.append("-arm64.tar.xz");
                Some(a)
            },
            Arch::X86_64 => {
                let mut a = String::from_str("SteamLinuxRuntime_");
                a.append(code);
                a.append(".tar.xz");
                Some(a)
            },
            Arch::Other => None,
        },
        None => None,
    }
}

/// The address of `file` among the images of `edition` on `branch`, with a
/// cache-busting `token`.
pub fn steamrt_url(edition: &str, branch: &str, file: &str, token: &str) -> (url: String)
    ensures
        url@ == steamrt_url_spec(edition@, branch@, file@, token@),
{
    let mut u = String::from_str("https://repo.steampowered.com/");
    u.append(edition);
    u.append("/images/");
    u.append(branch);
    u.append("/");
    u.append(file);
    u.append("?versions=");
    u.append(token);
    u
}

/// What downloading a runtime fetches: the archive's name and its address,
/// or none when the runtime cannot be had (the destination folder is
/// missing, the edition or the branch is empty, the edition is unknown or
/// the processor is another one).
pub fn steamrt_download_plan(folder_exists: bool, edition: &str, branch: &str, arch: Arch, token: &str) -> (plan: Option<(String, String)>)
    ensures
        match plan {
            Some((archive, url)) => {
                &&& folder_exists && edition@.len() > 0 && branch@.len() > 0
                &&& steamrt_archive_spec(edition@, arch) == Some(archive@)
                &&& url@ == steamrt_url_spec(edition@, branch@, archive@, token@)
            },
            None => !folder_exists || edition@.len() == 0 || branch@.len() == 0 || steamrt_archive_spec(edition@, arch) is None,
        },
{
    if !folder_exists || edition.is_empty() || branch.is_empty() {
        return None;
    }
    match steamrt_archive(edition, arch) {
        Some(archive) => {
            let url = steamrt_url(edition, branch, archive.as_str(), token);
            Some((archive, url))
        },
        None => None,
    }
}

/// The address of the version file of `edition` on `branch`, or none when
/// either is empty.
pub fn steamrt_version_url(edition: &str, branch: &str, token: &str) -> (url: Option<String>)
    ensures
        match url {
            Some(u) => edition@.len() > 0 && branch@.len() > 0 && u@ == steamrt_url_spec(edition@, branch@, "VERSION.txt"@, token@),
            None => edition@.len() == 0 || branch@.len() == 0,
        },
{
    if edition.is_empty() || branch.is_empty() {
        None
    } else {
        Some(steamrt_url(edition, branch, "VERSION.txt", token))
    }
}

/// The archive for ARM is the archive for x86-64 of the same edition with
/// `-arm64` before the extension: both name the edition's own runtime.
pub proof fn law_archives_share_code(edition: Seq<char>)
    ensures
        steamrt_archive_spec(edition, Arch::X86_64) is Some <==> steamrt_archive_spec(edition, Arch::Aarch64) is Some,
        steamrt_archive_spec(edition, Arch::X86_64) matches Some(a) ==> ({
            &&& a.len() >= 7
            &&& steamrt_archive_spec(edition, Arch::Aarch64) == Some(a.subrange(0, a.len() - 7) + "-arm64.tar.xz"@)
        }),
{
    reveal_strlit(".tar.xz");
    if let Some(c) = steamrt_code_spec(edition) {
        let x = "SteamLinuxRuntime_"@ + c + ".tar.xz"@;
        assert(x.subrange(0, x.len() - 7) =~= "SteamLinuxRuntime_"@ + c);
        assert(("SteamLinuxRuntime_"@ + c) + "-arm64.tar.xz"@ =~= "SteamLinuxRuntime_"@ + c + "-arm64.tar.xz"@);
    }
}

/// Different editions never share an archive on the same processor: each
/// edition fetches its own runtime.
pub proof fn law_archives_distinct(e1: Seq<char>, e2: Seq<char>, arch: Arch)
    requires
        e1 != e2,
        steamrt_archive_spec(e1, arch) is Some,
        steamrt_archive_spec(e2, arch) is Some,
    ensures
        steamrt_archive_spec(e1, arch) != steamrt_archive_spec(e2, arch),
{
    reveal_strlit("sniper");
    reveal_strlit("4");
    let c1 = steamrt_code_spec(e1)->0;
    let c2 = steamrt_code_spec(e2)->0;
    assert(c1.len() != c2.len());
    let p = "SteamLinuxRuntime_"@;
    match arch {
        Arch::X86_64 => {
            assert((p + c1 + ".tar.xz"@).len() != (p + c2 + ".tar.xz"@).len());
        },
        Arch::Aarch64 => {
            assert((p + c1 + "-arm64.tar.xz"@).len() != (p + c2 + "-arm64.tar.xz"@).len());
        },
        Arch::Other => {},
    }
}

} // verus!
