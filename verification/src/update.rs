//! Self-update decisions: which release package fits this platform, whether a
//! release is newer than the running version, and what a cached check says.
use vstd::prelude::*;
use crate::error::{error_of, result_view, AppError, AppErrorView, AppResult};
use crate::text::{
    concat, contains, ends_with, has_infix, starts_with, strip_all_leading, text_eq, trim, trimmed,
    without_leading,
};
use crate::version::{is_newer, newer, parse_semver, version_of};

verus! {

/// The version of this build of the widget.
pub const CURRENT_VERSION: &'static str = "0.1.0";

/// The version of this build of the widget.
pub fn current_version() -> (r: String)
    ensures
        r@ == CURRENT_VERSION@,
{
    String::from_str(CURRENT_VERSION)
}

/// The platforms the widget knows release packages for.
#[derive(Clone, Copy, Debug, PartialEq, Eq, Structural)]
pub enum Platform {
    WindowsX64,
    LinuxX64,
    Other,
}

/// Package extension, operating system word and architecture word that a
/// release package for the platform carries in its name.
pub open spec fn platform_tokens(platform: Platform) -> Option<(Seq<char>, Seq<char>, Seq<char>)> {
    match platform {
        Platform::WindowsX64 => Some((".exe"@, "windows"@, "x64"@)),
        Platform::LinuxX64 => Some((".deb"@, "linux"@, "amd64"@)),
        Platform::Other => None,
    }
}

/// The name tokens of the platform's release package, if it has one.
pub fn platform_asset_tokens(platform: Platform) -> (r: Option<(&'static str, &'static str, &'static str)>)
    ensures
        match (r, platform_tokens(platform)) {
            (Some(t), Some(s)) => t.0@ == s.0 && t.1@ == s.1 && t.2@ == s.2,
            (None, None) => true,
            _ => false,
        },
{
    match platform {
        Platform::WindowsX64 => Some((".exe", "windows", "x64")),
        Platform::LinuxX64 => Some((".deb", "linux", "amd64")),
        Platform::Other => None,
    }
}

/// A name that every platform's path rules read as one plain file name.
pub open spec fn plain_file_name(name: Seq<char>) -> bool {
    &&& name.len() > 0
    &&& !has_infix(name, "/"@)
    &&& !has_infix(name, "\\"@)
    &&& !has_infix(name, ":"@)
    &&& name != "."@
    &&& name != ".."@
}

/// Calls `std::path::Path::file_name` on the name and gives the final
/// component's text. Its documentation: the result is the final component of
/// the path when that is a normal file name, and `None` when the path ends in
/// `..`; std's component rules never yield a normal component that is empty,
/// `.` or `..`, or that holds `/` (a separator on every platform), and `.`
/// alone or the empty path has no normal component. Stated: those facts, and
/// that a name that no platform splits or prefixes (see [`plain_file_name`])
/// is its own final component. What Windows makes of `\` and `:` is left
/// open.
#[verifier::external_body]
fn file_name_text(name: &str) -> (r: Option<String>)
    ensures
        r is Some ==> r->0@.len() > 0 && !has_infix(r->0@, "/"@) && r->0@ != "."@ && r->0@ != ".."@,
        plain_file_name(name@) ==> r is Some && r->0@ == name@,
        r is Some ==> name@ != "."@ && name@ != ".."@ && name@.len() > 0,
{
    std::path::Path::new(name).file_name().and_then(|v| v.to_str()).map(|t| t.to_string())
}

/// Names that are safe under every platform's path rules.
pub open spec fn surely_safe_name(name: Seq<char>) -> bool {
    plain_file_name(name) && !has_infix(name, ".."@)
}

/// What any name accepted as safe satisfies: one non-empty file-name
/// component, without `/` and `..`, and not `.`.
pub open spec fn possibly_safe_name(name: Seq<char>) -> bool {
    &&& name.len() > 0
    &&& !has_infix(name, "/"@)
    &&& !has_infix(name, ".."@)
    &&& name != "."@
}

/// Whether an update package name is its own final path component (a plain
/// file name) without `..`, so that it cannot lead out of the download
/// directory.
pub fn is_safe_asset_name(name: &str) -> (r: bool)
    ensures
        surely_safe_name(name@) ==> r,
        r ==> possibly_safe_name(name@),
{
    if name.is_empty() {
        return false;
    }
    let own = match file_name_text(name) {
        Some(t) => text_eq(t.as_str(), name),
        None => false,
    };
    own && !contains(name, "..")
}


/// One downloadable file of a GitHub release.
pub struct GithubAsset {
    pub name: String,
    pub browser_download_url: String,
    pub size: u64,
}

/// The parts of a GitHub release that the updater reads.
pub struct GithubRelease {
    pub tag_name: String,
    pub html_url: String,
    pub assets: Vec<GithubAsset>,
}

/// A release file as plain values.
pub struct GithubAssetView {
    pub name: Seq<char>,
    pub url: Seq<char>,
    pub size: u64,
}

/// A release as plain values.
pub struct GithubReleaseView {
    pub tag_name: Seq<char>,
    pub html_url: Seq<char>,
    pub assets: Seq<GithubAssetView>,
}

impl View for GithubAsset {
    type V = GithubAssetView;

    open spec fn view(&self) -> GithubAssetView {
        GithubAssetView { name: self.name@, url: self.browser_download_url@, size: self.size }
    }
}

impl DeepView for GithubAsset {
    type V = GithubAssetView;

    open spec fn deep_view(&self) -> GithubAssetView {
        self@
    }
}

impl View for GithubRelease {
    type V = GithubReleaseView;

    open spec fn view(&self) -> GithubReleaseView {
        GithubReleaseView {
            tag_name: self.tag_name@,
            html_url: self.html_url@,
            assets: self.assets.deep_view(),
        }
    }
}

/// The update package chosen for this platform, with its detached signature.
pub struct ReleaseAsset {
    pub name: String,
    pub download_url: String,
    pub size: u64,
    pub signature_url: String,
    pub sha256: Option<String>,
}

/// An update package as plain values.
pub struct ReleaseAssetView {
    pub name: Seq<char>,
    pub download_url: Seq<char>,
    pub size: u64,
    pub signature_url: Seq<char>,
    pub sha256: Option<Seq<char>>,
}

impl View for ReleaseAsset {
    type V = ReleaseAssetView;

    open spec fn view(&self) -> ReleaseAssetView {
        ReleaseAssetView {
            name: self.name@,
            download_url: self.download_url@,
            size: self.size,
            signature_url: self.signature_url@,
            sha256: self.sha256.deep_view(),
        }
    }
}

impl DeepView for ReleaseAsset {
    type V = ReleaseAssetView;

    open spec fn deep_view(&self) -> ReleaseAssetView {
        self@
    }
}

impl ReleaseAsset {
    /// A copy of the package description.
    pub fn duplicate(&self) -> (r: ReleaseAsset)
        ensures
            r@ == self@,
    {
        ReleaseAsset {
            name: self.name.clone(),
            download_url: self.download_url.clone(),
            size: self.size,
            signature_url: self.signature_url.clone(),
            sha256: match &self.sha256 {
                Some(h) => Some(h.clone()),
                None => None,
            },
        }
    }
}

/// Whether a release file is the platform's update package: it carries the
/// widget's package prefix, the platform's words and extension, and a name
/// judged safe (`safe`).
pub open spec fn is_candidate(
    name: Seq<char>,
    tokens: (Seq<char>, Seq<char>, Seq<char>),
    safe: bool,
) -> bool {
    &&& "openrouter-widget_"@.is_prefix_of(name)
    &&& has_infix(name, tokens.1)
    &&& has_infix(name, tokens.2)
    &&& tokens.0.is_suffix_of(name)
    &&& safe
}

/// Indices, in order, of the update packages among the first `k` files.
pub open spec fn candidates_in(
    assets: Seq<GithubAssetView>,
    tokens: (Seq<char>, Seq<char>, Seq<char>),
    safe: Seq<bool>,
    k: int,
) -> Seq<int>
    decreases k,
{
    if k <= 0 {
        Seq::empty()
    } else {
        let before = candidates_in(assets, tokens, safe, k - 1);
        if is_candidate(assets[k - 1].name, tokens, safe[k - 1]) {
            before.push(k - 1)
        } else {
            before
        }
    }
}

/// The first of the first `k` files that has the given name.
pub open spec fn first_named(assets: Seq<GithubAssetView>, name: Seq<char>, k: int) -> Option<int>
    decreases k,
{
    if k <= 0 {
        None
    } else {
        match first_named(assets, name, k - 1) {
            Some(i) => Some(i),
            None => if assets[k - 1].name == name {
                Some(k - 1)
            } else {
                None
            },
        }
    }
}

/// The package chosen from a release, given which file names were judged
/// safe: none where the platform has no packages or none fits; an error where
/// more than one fits, or where the one that fits has no file named after it
/// with `.sig` appended; else the package with that signature file's URL.
pub open spec fn selection(
    release: GithubReleaseView,
    platform: Platform,
    safe: Seq<bool>,
) -> Result<Option<ReleaseAssetView>, AppErrorView> {
    match platform_tokens(platform) {
        None => Ok(None),
        Some(tokens) => {
            let n = release.assets.len() as int;
            let found = candidates_in(release.assets, tokens, safe, n);
            if found.len() > 1 {
                Err(AppErrorView::InvalidInput("Multiple compatible update packages found"@))
            } else if found.len() == 0 {
                Ok(None)
            } else {
                let asset = release.assets[found[0]];
                match first_named(release.assets, asset.name + ".sig"@, n) {
                    None => Err(
                        AppErrorView::NotFound("No detached signature found for update package"@),
                    ),
                    Some(j) => Ok(
                        Some(
                            ReleaseAssetView {
                                name: asset.name,
                                download_url: asset.url,
                                size: asset.size,
                                signature_url: release.assets[j].url,
                                sha256: None,
                            },
                        ),
                    ),
                }
            }
        },
    }
}

proof fn lemma_candidates_below(
    assets: Seq<GithubAssetView>,
    tokens: (Seq<char>, Seq<char>, Seq<char>),
    safe: Seq<bool>,
    k: int,
)
    requires
        0 <= k,
    ensures
        forall|i: int|
            0 <= i < candidates_in(assets, tokens, safe, k).len() ==> 0 <= #[trigger] candidates_in(
                assets,
                tokens,
                safe,
                k,
            )[i] < k && is_candidate(
                assets[candidates_in(assets, tokens, safe, k)[i]].name,
                tokens,
                safe[candidates_in(assets, tokens, safe, k)[i]],
            ),
    decreases k,
{
    if k > 0 {
        lemma_candidates_below(assets, tokens, safe, k - 1);
        let before = candidates_in(assets, tokens, safe, k - 1);
        let now = candidates_in(assets, tokens, safe, k);
        assert forall|i: int| 0 <= i < now.len() implies 0 <= #[trigger] now[i] < k && is_candidate(
            assets[now[i]].name,
            tokens,
            safe[now[i]],
        ) by {
            if i < before.len() {
                assert(now[i] == before[i]);
            }
        }
    }
}

proof fn lemma_first_named_stays(assets: Seq<GithubAssetView>, name: Seq<char>, k: int, j: int)
    requires
        0 <= k <= j,
        first_named(assets, name, k) is Some,
    ensures
        first_named(assets, name, j) == first_named(assets, name, k),
        0 <= first_named(assets, name, k)->0 < k,
    decreases j - k, k,
{
    if j > k {
        lemma_first_named_stays(assets, name, k, j - 1);
    } else if k > 0 && first_named(assets, name, k - 1) is Some {
        lemma_first_named_stays(assets, name, k - 1, k - 1);
    }
}

/// Looks up the file with the given name.
fn find_named(assets: &Vec<GithubAsset>, name: &str) -> (r: Option<usize>)
    ensures
        match (r, first_named(assets.deep_view(), name@, assets@.len() as int)) {
            (Some(i), Some(j)) => i == j && i < assets@.len(),
            (None, None) => true,
            _ => false,
        },
{
    let n = assets.len();
    let mut k: usize = 0;
    while k < n
        invariant
            n == assets@.len(),
            k <= n,
            first_named(assets.deep_view(), name@, k as int) is None,
        decreases n - k,
    {
        proof {
            assert(assets.deep_view()[k as int] == assets@[k as int].deep_view());
        }
        if text_eq(assets[k].name.as_str(), name) {
            proof {
                lemma_first_named_stays(assets.deep_view(), name@, k as int + 1, n as int);
            }
            return Some(k);
        }
        k = k + 1;
    }
    None
}

/// Chooses the platform's update package from a release, given for each file
/// whether its name was judged safe.
pub fn select_asset_with(
    release: &GithubRelease,
    platform: Platform,
    safe: &Vec<bool>,
) -> (r: AppResult<Option<ReleaseAsset>>)
    requires
        safe@.len() == release.assets@.len(),
    ensures
        result_view(r) == selection(release@, platform, safe@),
{
    let tokens = match platform_asset_tokens(platform) {
        Some(t) => t,
        None => return Ok(None),
    };
    let (extension, os, arch) = tokens;
    let ghost spec_tokens = platform_tokens(platform)->0;
    let ghost views = release.assets.deep_view();
    let n = release.assets.len();
    let mut count: usize = 0;
    let mut first: usize = 0;
    let mut k: usize = 0;
    while k < n
        invariant
            n == release.assets@.len(),
            safe@.len() == n,
            views == release.assets.deep_view(),
            extension@ == spec_tokens.0,
            os@ == spec_tokens.1,
            arch@ == spec_tokens.2,
            k <= n,
            count as int == candidates_in(views, spec_tokens, safe@, k as int).len(),
            count > 0 ==> first as int == candidates_in(views, spec_tokens, safe@, k as int)[0],
            count <= k,
        decreases n - k,
    {
        let name = release.assets[k].name.as_str();
        proof {
            assert(views[k as int] == release.assets@[k as int].deep_view());
        }
        let fits = starts_with(name, "openrouter-widget_") && contains(name, os) && contains(
            name,
            arch,
        ) && ends_with(name, extension) && safe[k];
        proof {
            assert(views[k as int].name == name@);
            assert(fits == is_candidate(views[k as int].name, spec_tokens, safe@[k as int]));
        }
        if fits {
            if count == 0 {
                first = k;
            }
            count = count + 1;
        }
        k = k + 1;
    }
    if count > 1 {
        return Err(AppError::invalid_input("Multiple compatible update packages found"));
    }
    if count == 0 {
        return Ok(None);
    }
    proof {
        lemma_candidates_below(views, spec_tokens, safe@, n as int);
    }
    let asset = &release.assets[first];
    let signature_name = concat(asset.name.as_str(), ".sig");
    match find_named(&release.assets, signature_name.as_str()) {
        None => Err(AppError::not_found("No detached signature found for update package")),
        Some(j) => Ok(
            Some(
                ReleaseAsset {
                    name: asset.name.clone(),
                    download_url: asset.browser_download_url.clone(),
                    size: asset.size,
                    signature_url: release.assets[j].browser_download_url.clone(),
                    sha256: None,
                },
            ),
        ),
    }
}

/// Chooses the platform's update package from a release: the one file whose
/// name has the widget's prefix, the platform's words and extension and is a
/// safe file name, together with its `.sig` file. The choice is the one that
/// [`select_asset_with`] makes for the safety judgements taken here; where no
/// name holds `\` or `:`, those judgements are the exact ones.
pub fn select_asset(release: &GithubRelease, platform: Platform) -> (r: AppResult<Option<ReleaseAsset>>)
    ensures
        exists|safe: Seq<bool>|
            #![trigger selection(release@, platform, safe)]
            admissible_judgements(release@.assets, safe) && result_view(r) == selection(
                release@,
                platform,
                safe,
            ),
        r matches Ok(Some(a)) ==> {
            &&& possibly_safe_name(a.name@)
            &&& "openrouter-widget_"@.is_prefix_of(a.name@)
            &&& platform_tokens(platform) matches Some(t) && has_infix(a.name@, t.1) && has_infix(
                a.name@,
                t.2,
            ) && t.0.is_suffix_of(a.name@)
        },
        (forall|i: int|
            0 <= i < release.assets@.len() ==> (surely_safe_name(release@.assets[i].name)
                <==> possibly_safe_name(release@.assets[i].name))) ==> result_view(r) == selection(
            release@,
            platform,
            Seq::new(
                release.assets@.len(),
                |i: int| surely_safe_name(release@.assets[i].name),
            ),
        ),
{
    let n = release.assets.len();
    let mut safe: Vec<bool> = Vec::new();
    let mut k: usize = 0;
    while k < n
        invariant
            n == release.assets@.len(),
            k <= n,
            safe@.len() == k,
            forall|i: int|
                0 <= i < k ==> (surely_safe_name(release@.assets[i].name) ==> safe@[i]) && (
                safe@[i] ==> possibly_safe_name(release@.assets[i].name)),
        decreases n - k,
    {
        let ok = is_safe_asset_name(release.assets[k].name.as_str());
        safe.push(ok);
        k = k + 1;
    }
    let r = select_asset_with(release, platform, &safe);
    proof {
        if platform_tokens(platform) is Some {
            lemma_candidates_below(
                release@.assets,
                platform_tokens(platform)->0,
                safe@,
                n as int,
            );
        }
        let exact = Seq::new(n as nat, |i: int| surely_safe_name(release@.assets[i].name));
        if forall|i: int|
            0 <= i < n ==> (surely_safe_name(release@.assets[i].name) <==> possibly_safe_name(
                release@.assets[i].name,
            )) {
            assert(safe@ =~= exact);
        }
    }
    r
}


/// Safety judgements for release file names that agree with what
/// [`is_safe_asset_name`] promises.
pub open spec fn admissible_judgements(assets: Seq<GithubAssetView>, safe: Seq<bool>) -> bool {
    &&& safe.len() == assets.len()
    &&& forall|i: int|
        0 <= i < safe.len() ==> (surely_safe_name(assets[i].name) ==> safe[i]) && (safe[i]
            ==> possibly_safe_name(assets[i].name))
}

/// The result of checking a release against the running version.
pub struct UpdateInfo {
    pub current_version: String,
    pub latest_version: String,
    pub update_available: bool,
    pub release_url: String,
    pub assets: Vec<ReleaseAsset>,
    pub release_tag: String,
    pub compatible_asset_available: bool,
    pub asset: Option<ReleaseAsset>,
}

/// The release tag as the updater keeps it: trimmed.
pub open spec fn release_tag_text(tag: Seq<char>) -> Seq<char> {
    trimmed(tag)
}

/// The version text of a release tag: the trimmed tag without its leading `v`s.
pub open spec fn latest_version_text(tag: Seq<char>) -> Seq<char> {
    without_leading(trimmed(tag), 'v')
}

/// Compares a fetched release with the running version `current` and picks
/// the platform's package when the release is newer. A tag that is no version
/// is refused; otherwise the result records the trimmed tag, its version text,
/// whether it is newer and, if so, the package chosen as [`select_asset`]
/// chooses it (whose errors are passed on).
pub fn release_update_info(release: &GithubRelease, current: &str, platform: Platform) -> (r:
    AppResult<UpdateInfo>)
    ensures
        version_of(latest_version_text(release@.tag_name)) is None ==> error_of(r) == Some(AppErrorView::InvalidInput("Latest release has an invalid version tag"@)),
        version_of(latest_version_text(release@.tag_name)) is Some ==> match r {
            Ok(info) => {
                &&& info.current_version@ == current@
                &&& info.release_tag@ == release_tag_text(release@.tag_name)
                &&& info.latest_version@ == latest_version_text(release@.tag_name)
                &&& info.update_available == newer(
                    latest_version_text(release@.tag_name),
                    current@,
                )
                &&& info.release_url@ == release@.html_url
                &&& info.compatible_asset_available == info.asset is Some
                &&& info.assets.deep_view() == match info.asset.deep_view() {
                    Some(a) => seq![a],
                    None => Seq::empty(),
                }
                &&& !info.update_available ==> info.asset is None
                &&& info.update_available ==> exists|safe: Seq<bool>|
                    #![trigger selection(release@, platform, safe)]
                    admissible_judgements(release@.assets, safe) && selection(
                        release@,
                        platform,
                        safe,
                    ) == Ok::<Option<ReleaseAssetView>, AppErrorView>(info.asset.deep_view())
            },
            Err(e) => {
                &&& newer(latest_version_text(release@.tag_name), current@)
                &&& exists|safe: Seq<bool>|
                    #![trigger selection(release@, platform, safe)]
                    admissible_judgements(release@.assets, safe) && selection(
                        release@,
                        platform,
                        safe,
                    ) == Err::<Option<ReleaseAssetView>, AppErrorView>(e@)
            },
        },
{
    let release_tag = String::from_str(trim(release.tag_name.as_str()));
    let latest = String::from_str(strip_all_leading(release_tag.as_str(), 'v'));
    if parse_semver(latest.as_str()).is_none() {
        return Err(AppError::invalid_input("Latest release has an invalid version tag"));
    }
    let current_version = String::from_str(current);
    let update_available = is_newer(latest.as_str(), current);
    let asset = if update_available {
        match select_asset(release, platform) {
            Ok(a) => a,
            Err(e) => return Err(e),
        }
    } else {
        None
    };
    let mut assets: Vec<ReleaseAsset> = Vec::new();
    let compatible = match &asset {
        Some(a) => {
            assets.push(a.duplicate());
            true
        },
        None => false,
    };
    proof {
        if asset is Some {
            assert(assets.deep_view() =~= seq![asset->0.deep_view()]);
        } else {
            assert(assets.deep_view() =~= Seq::<ReleaseAssetView>::empty());
        }
    }
    Ok(
        UpdateInfo {
            current_version,
            latest_version: latest,
            update_available,
            release_url: release.html_url.clone(),
            assets,
            release_tag,
            compatible_asset_available: compatible,
            asset,
        },
    )
}

/// The update package remembered from the last check.
pub struct UpdateAssetMetadata {
    pub name: String,
    pub download_url: String,
    pub signature_url: String,
    pub size: u64,
    pub sha256: Option<String>,
}

/// What the settings remember of the last update check.
pub struct UpdateCache {
    pub last_update_check_at: Option<String>,
    pub last_notified_version: Option<String>,
    pub last_update_release_tag: Option<String>,
    pub last_update_asset: Option<UpdateAssetMetadata>,
}

impl UpdateAssetMetadata {
    /// The remembered form of a chosen package.
    pub fn from_release_asset(asset: ReleaseAsset) -> (r: UpdateAssetMetadata)
        ensures
            r.name@ == asset.name@,
            r.download_url@ == asset.download_url@,
            r.signature_url@ == asset.signature_url@,
            r.size == asset.size,
            r.sha256.deep_view() == asset.sha256.deep_view(),
    {
        UpdateAssetMetadata {
            name: asset.name,
            download_url: asset.download_url,
            signature_url: asset.signature_url,
            size: asset.size,
            sha256: asset.sha256,
        }
    }

    /// The package description that a remembered package stands for.
    pub fn into_release_asset(self) -> (r: ReleaseAsset)
        ensures
            r.name@ == self.name@,
            r.download_url@ == self.download_url@,
            r.signature_url@ == self.signature_url@,
            r.size == self.size,
            r.sha256.deep_view() == self.sha256.deep_view(),
    {
        ReleaseAsset {
            name: self.name,
            download_url: self.download_url,
            size: self.size,
            signature_url: self.signature_url,
            sha256: self.sha256,
        }
    }
}

/// The state of updates as last checked.
pub struct UpdateStatus {
    pub current_version: String,
    pub last_check_at: Option<String>,
    pub update_available: bool,
    pub latest_version: Option<String>,
    pub compatible_asset_available: bool,
    pub asset: Option<ReleaseAsset>,
}

/// The update state that the remembered check gives for the running version
/// `current`: an update is available when the remembered version is newer.
pub fn update_status(cache: UpdateCache, current: &str) -> (r: UpdateStatus)
    ensures
        r.current_version@ == current@,
        r.last_check_at.deep_view() == cache.last_update_check_at.deep_view(),
        r.latest_version.deep_view() == cache.last_notified_version.deep_view(),
        r.update_available == match cache.last_notified_version {
            Some(v) => newer(v@, current@),
            None => false,
        },
        r.compatible_asset_available == cache.last_update_asset is Some,
        match (r.asset, cache.last_update_asset) {
            (Some(a), Some(m)) => a.name@ == m.name@ && a.download_url@ == m.download_url@
                && a.signature_url@ == m.signature_url@ && a.size == m.size
                && a.sha256.deep_view() == m.sha256.deep_view(),
            (None, None) => true,
            _ => false,
        },
{
    let update_available = match &cache.last_notified_version {
        Some(v) => is_newer(v.as_str(), current),
        None => false,
    };
    let compatible = cache.last_update_asset.is_some();
    let asset = match cache.last_update_asset {
        Some(m) => Some(m.into_release_asset()),
        None => None,
    };
    UpdateStatus {
        current_version: String::from_str(current),
        last_check_at: cache.last_update_check_at,
        update_available,
        latest_version: cache.last_notified_version,
        compatible_asset_available: compatible,
        asset,
    }
}

/// The largest update package the widget downloads, in bytes.
pub const MAX_UPDATE_BYTES: u64 = 209715200;

/// Refuses an update package larger than [`MAX_UPDATE_BYTES`].
pub fn check_update_size(size: u64) -> (r: AppResult<()>)
    ensures
        size <= MAX_UPDATE_BYTES ==> r is Ok,
        size > MAX_UPDATE_BYTES ==> error_of(r) == Some(
            AppErrorView::InvalidInput("Update package exceeds the maximum size"@),
        ),
{
    if size > MAX_UPDATE_BYTES {
        Err(AppError::invalid_input("Update package exceeds the maximum size"))
    } else {
        Ok(())
    }
}

/// Refuses a requested package name that is not a safe file name.
pub fn check_requested_asset_name(asset_name: &str) -> (r: AppResult<()>)
    ensures
        surely_safe_name(asset_name@) ==> r is Ok,
        !possibly_safe_name(asset_name@) ==> error_of(r) == Some(
            AppErrorView::InvalidInput("Invalid update asset name"@),
        ),
        r is Err ==> error_of(r) == Some(
            AppErrorView::InvalidInput("Invalid update asset name"@),
        ),
{
    if !is_safe_asset_name(asset_name) {
        Err(AppError::invalid_input("Invalid update asset name"))
    } else {
        Ok(())
    }
}

/// The remembered package to download for a request naming a release tag and
/// a package: refused when nothing is remembered, or when the remembered
/// release tag or package name differs from the request.
pub fn cached_update_for(release_tag: &str, asset_name: &str, cache: UpdateCache) -> (r: AppResult<
    UpdateAssetMetadata,
>)
    ensures
        cache.last_update_asset is None ==> error_of(r) == Some(
            AppErrorView::NotFound("No compatible cached update package"@),
        ),
        cache.last_update_asset is Some ==> {
            let m = cache.last_update_asset->0;
            let current = match cache.last_update_release_tag {
                Some(t) => t@ == release_tag@,
                None => false,
            } && m.name@ == asset_name@;
            &&& current ==> (r matches Ok(out) && out.name@ == m.name@ && out.download_url@
                == m.download_url@ && out.signature_url@ == m.signature_url@ && out.size
                == m.size && out.sha256.deep_view() == m.sha256.deep_view())
            &&& !current ==> error_of(r) == Some(
                AppErrorView::InvalidInput(
                    "Update package is no longer current; check for updates again"@,
                ),
            )
        },
{
    let cached = match cache.last_update_asset {
        Some(m) => m,
        None => return Err(AppError::not_found("No compatible cached update package")),
    };
    let tag_matches = match &cache.last_update_release_tag {
        Some(t) => text_eq(t.as_str(), release_tag),
        None => false,
    };
    if !tag_matches || !text_eq(cached.name.as_str(), asset_name) {
        return Err(
            AppError::invalid_input("Update package is no longer current; check for updates again"),
        );
    }
    Ok(cached)
}

} // verus!
