//! The toolchain cache: which archives make up a sysroot, where they are fetched from and
//! cached, how their entries are laid out on extraction, and the finished sysroot handle.
use vstd::prelude::*;
use crate::commit::Commit;
use vstd::string::StrSliceExecFns;
use crate::text::{
    ends_with, find_char, index_from, is_prefix, is_suffix, join, slice, slice_from, starts_with,
};

verus! {

/// The build-tool commit used for compilers older than the cutoff.
pub const FALLBACK_CARGO_SHA: &'static str = "53eb08bedc8719844bb553dbe1a39d9010783ff5";

/// 2017-03-20T00:00:00Z in seconds since the Unix epoch: build tools of commits before this
/// instant are known to be broken.
pub const CARGO_CUTOFF: i64 = 1489968000;

/// The directory, relative to the working directory, that holds archives and sysroots.
pub const CACHE_DIR: &'static str = "cache";

/// The mirror of integration builds.
pub const BUILDS_BASE: &'static str = "https://s3.amazonaws.com/rust-lang-ci/rustc-builds/";

/// The mirror of try builds.
pub const TRY_BUILDS_BASE: &'static str = "https://s3.amazonaws.com/rust-lang-ci/rustc-builds-try/";

/// One independently distributed archive of a sysroot.
#[derive(Debug, Clone, Copy, PartialEq, Eq, Structural)]
pub enum ModuleVariant {
    Cargo,
    Rustc,
    Std,
}

/// The archive name of a module.
pub open spec fn variant_name(v: ModuleVariant) -> Seq<char> {
    match v {
        ModuleVariant::Cargo => "cargo"@,
        ModuleVariant::Rustc => "rustc"@,
        ModuleVariant::Std => "rust-std"@,
    }
}

impl ModuleVariant {
    /// The archive name of the module.
    pub fn name(&self) -> (r: &'static str)
        ensures
            r@ == variant_name(*self),
    {
        match self {
            ModuleVariant::Cargo => "cargo",
            ModuleVariant::Rustc => "rustc",
            ModuleVariant::Std => "rust-std",
        }
    }
}

/// The module whose archive name is `name`, if any.
pub open spec fn variant_named(name: Seq<char>) -> Option<ModuleVariant> {
    if name == "cargo"@ {
        Some(ModuleVariant::Cargo)
    } else if name == "rustc"@ {
        Some(ModuleVariant::Rustc)
    } else if name == "rust-std"@ {
        Some(ModuleVariant::Std)
    } else {
        None
    }
}

/// The module whose archive name is `name`, if any.
pub fn module_variant(name: &str) -> (r: Option<ModuleVariant>)
    ensures
        r == variant_named(name@),
        r matches Some(v) ==> variant_name(v) == name@,
        r is None ==> forall|v: ModuleVariant| variant_name(v) != name@,
{
    let n = name.to_owned();
    if n == "cargo".to_owned() {
        Some(ModuleVariant::Cargo)
    } else if n == "rustc".to_owned() {
        Some(ModuleVariant::Rustc)
    } else if n == "rust-std".to_owned() {
        Some(ModuleVariant::Std)
    } else {
        None
    }
}

/// The modules of a full sysroot, in the order in which they are installed.
pub fn install_order() -> (r: Vec<ModuleVariant>)
    ensures
        r@ == seq![ModuleVariant::Rustc, ModuleVariant::Std, ModuleVariant::Cargo],
{
    let mut r: Vec<ModuleVariant> = Vec::new();
    r.push(ModuleVariant::Rustc);
    r.push(ModuleVariant::Std);
    r.push(ModuleVariant::Cargo);
    assert(r@ =~= seq![ModuleVariant::Rustc, ModuleVariant::Std, ModuleVariant::Cargo]);
    r
}

/// The compression of an archive.
#[derive(Debug, Clone, Copy, PartialEq, Eq, Structural)]
pub enum Compression {
    Xz,
    Gz,
}

pub open spec fn extension_of(c: Compression) -> Seq<char> {
    match c {
        Compression::Xz => "xz"@,
        Compression::Gz => "gz"@,
    }
}

impl Compression {
    /// The file extension of the compression.
    pub fn extension(&self) -> (r: &'static str)
        ensures
            r@ == extension_of(*self),
    {
        match self {
            Compression::Xz => "xz",
            Compression::Gz => "gz",
        }
    }
}

/// One layout under which the archives have been published: the mirror, whether the
/// archives lie in a `dist` subdirectory, the release tag in their names, and the
/// compression.
#[derive(Debug, Clone, Copy)]
pub struct UrlTemplate {
    pub base: &'static str,
    pub dist: bool,
    pub tag: &'static str,
    pub compression: Compression,
}

/// The address of a module's archive under a template.
pub open spec fn render(t: UrlTemplate, module: Seq<char>, sha: Seq<char>, triple: Seq<char>) -> Seq<
    char,
> {
    t.base@ + sha + "/"@ + (if t.dist {
        "dist/"@
    } else {
        Seq::empty()
    }) + module + "-"@ + t.tag@ + "-"@ + triple + ".tar."@ + extension_of(t.compression)
}

/// The published layouts, in the order in which they are tried.
pub open spec fn templates() -> Seq<UrlTemplate> {
    seq![
        UrlTemplate { base: BUILDS_BASE, dist: false, tag: "nightly", compression: Compression::Xz },
        UrlTemplate { base: BUILDS_BASE, dist: false, tag: "nightly", compression: Compression::Gz },
        UrlTemplate { base: BUILDS_BASE, dist: true, tag: "nightly", compression: Compression::Gz },
        UrlTemplate { base: BUILDS_BASE, dist: false, tag: "1.16.0-dev", compression: Compression::Gz },
        UrlTemplate { base: TRY_BUILDS_BASE, dist: false, tag: "nightly", compression: Compression::Xz },
    ]
}

/// The published layouts, in the order in which they are tried.
pub fn url_templates() -> (r: Vec<UrlTemplate>)
    ensures
        r@ == templates(),
{
    let mut r: Vec<UrlTemplate> = Vec::new();
    r.push(UrlTemplate { base: BUILDS_BASE, dist: false, tag: "nightly", compression: Compression::Xz });
    r.push(UrlTemplate { base: BUILDS_BASE, dist: false, tag: "nightly", compression: Compression::Gz });
    r.push(UrlTemplate { base: BUILDS_BASE, dist: true, tag: "nightly", compression: Compression::Gz });
    r.push(UrlTemplate { base: BUILDS_BASE, dist: false, tag: "1.16.0-dev", compression: Compression::Gz });
    r.push(UrlTemplate { base: TRY_BUILDS_BASE, dist: false, tag: "nightly", compression: Compression::Xz });
    assert(r@ =~= templates());
    r
}

/// The address of a module's archive under a template.
pub fn render_url(t: &UrlTemplate, module: &str, sha: &str, triple: &str) -> (r: String)
    ensures
        r@ == render(*t, module@, sha@, triple@),
{
    let mut u = join(t.base, sha);
    u = join(&u, "/");
    if t.dist {
        u = join(&u, "dist/");
    }
    u = join(&u, module);
    u = join(&u, "-");
    u = join(&u, t.tag);
    u = join(&u, "-");
    u = join(&u, triple);
    u = join(&u, ".tar.");
    u = join(&u, t.compression.extension());
    assert(u@ =~= render(*t, module@, sha@, triple@));
    u
}

/// The cache path of an archive: `<dir>/<sha>-<triple>-<module>.tar.<extension>`.
pub open spec fn archive_path_of(
    dir: Seq<char>,
    sha: Seq<char>,
    triple: Seq<char>,
    module: Seq<char>,
    c: Compression,
) -> Seq<char> {
    dir + "/"@ + sha + "-"@ + triple + "-"@ + module + ".tar."@ + extension_of(c)
}

/// Where a module's archive may come from.
#[derive(Debug)]
pub enum Source {
    /// An archive kept in the cache by an earlier run.
    Cached { path: String, compression: Compression },
    /// A mirror; where `save` is set the stream is first written to `archive`, so that a
    /// later run finds it in the cache.
    Remote { url: String, compression: Compression, archive: String, save: bool },
}

/// The parameters of one sysroot download.
#[derive(Debug)]
pub struct SysrootDownload {
    pub directory: String,
    pub save_download: bool,
    pub rust_sha: String,
    pub cargo_sha: String,
    pub triple: String,
}

/// One module of a sysroot download.
pub struct Module<'a> {
    pub variant: ModuleVariant,
    pub sysroot: &'a SysrootDownload,
}

impl<'a> Module<'a> {
    /// The commit whose build of this module is fetched.
    pub open spec fn spec_sha(&self) -> Seq<char> {
        match self.variant {
            ModuleVariant::Cargo => self.sysroot.cargo_sha@,
            _ => self.sysroot.rust_sha@,
        }
    }

    /// The commit whose build of this module is fetched: the build-tool commit for the
    /// build tool, the requested commit otherwise.
    pub fn sha(&self) -> (r: &str)
        ensures
            r@ == self.spec_sha(),
    {
        match self.variant {
            ModuleVariant::Cargo => self.sysroot.cargo_sha.as_str(),
            _ => self.sysroot.rust_sha.as_str(),
        }
    }

    /// The addresses of the module's archive, one for each published layout, in order.
    pub fn urls(&self) -> (r: Vec<String>)
        ensures
            r@.len() == templates().len(),
            forall|i: int|
                0 <= i < r@.len() ==> #[trigger] r@[i]@ == render(
                    templates()[i],
                    variant_name(self.variant),
                    self.spec_sha(),
                    self.sysroot.triple@,
                ),
    {
        let ts = url_templates();
        let mut r: Vec<String> = Vec::new();
        let mut i: usize = 0;
        while i < ts.len()
            invariant
                ts@ == templates(),
                i <= ts@.len(),
                r@.len() == i,
                forall|j: int|
                    0 <= j < i ==> #[trigger] r@[j]@ == render(
                        templates()[j],
                        variant_name(self.variant),
                        self.spec_sha(),
                        self.sysroot.triple@,
                    ),
            decreases ts@.len() - i,
        {
            let u = render_url(&ts[i], self.variant.name(), self.sha(), self.sysroot.triple.as_str());
            r.push(u);
            i = i + 1;
        }
        r
    }

    /// The cache path of the module's archive with the given compression.
    pub fn archive_path(&self, c: Compression) -> (r: String)
        ensures
            r@ == archive_path_of(
                self.sysroot.directory@,
                self.spec_sha(),
                self.sysroot.triple@,
                variant_name(self.variant),
                c,
            ),
    {
        let mut p = join(self.sysroot.directory.as_str(), "/");
        p = join(&p, self.sha());
        p = join(&p, "-");
        p = join(&p, self.sysroot.triple.as_str());
        p = join(&p, "-");
        p = join(&p, self.variant.name());
        p = join(&p, ".tar.");
        p = join(&p, c.extension());
        assert(p@ =~= archive_path_of(
            self.sysroot.directory@,
            self.spec_sha(),
            self.sysroot.triple@,
            variant_name(self.variant),
            c,
        ));
        p
    }

    /// The sources of the module's archive, in the order in which they are tried: the
    /// cached archives, the more compact compression first, then every mirror layout.
    pub fn sources(&self) -> (r: Vec<Source>)
        ensures
            self.are_sources(r@),
    {
        let mut r: Vec<Source> = Vec::new();
        r.push(Source::Cached { path: self.archive_path(Compression::Xz), compression: Compression::Xz });
        r.push(Source::Cached { path: self.archive_path(Compression::Gz), compression: Compression::Gz });
        let ts = url_templates();
        let urls = self.urls();
        let mut i: usize = 0;
        while i < ts.len()
            invariant
                ts@ == templates(),
                urls@.len() == templates().len(),
                forall|j: int|
                    0 <= j < urls@.len() ==> #[trigger] urls@[j]@ == render(
                        templates()[j],
                        variant_name(self.variant),
                        self.spec_sha(),
                        self.sysroot.triple@,
                    ),
                i <= ts@.len(),
                r@.len() == 2 + i,
                r@[0] matches Source::Cached { path, compression } && compression == Compression::Xz
                    && path@ == self.spec_archive_path(Compression::Xz),
                r@[1] matches Source::Cached { path, compression } && compression == Compression::Gz
                    && path@ == self.spec_archive_path(Compression::Gz),
                forall|j: int|
                    0 <= j < i ==> (#[trigger] r@[2 + j] matches Source::Remote {
                        url,
                        compression,
                        archive,
                        save,
                    } && url@ == render(
                        templates()[j],
                        variant_name(self.variant),
                        self.spec_sha(),
                        self.sysroot.triple@,
                    ) && compression == templates()[j].compression && archive@
                        == self.spec_archive_path(compression) && save == self.sysroot.save_download),
            decreases ts@.len() - i,
        {
            let c = ts[i].compression;
            let url = urls[i].clone();
            r.push(Source::Remote {
                url,
                compression: c,
                archive: self.archive_path(c),
                save: self.sysroot.save_download,
            });
            i = i + 1;
        }
        r
    }

    /// `v` lists the sources of this module's archive in the order in which they are tried:
    /// the cached archives, the more compact compression first, then every mirror layout.
    pub open spec fn are_sources(&self, v: Seq<Source>) -> bool {
        &&& v.len() == 2 + templates().len()
        &&& v[0] matches Source::Cached { path, compression } && compression == Compression::Xz
            && path@ == self.spec_archive_path(Compression::Xz)
        &&& v[1] matches Source::Cached { path, compression } && compression == Compression::Gz
            && path@ == self.spec_archive_path(Compression::Gz)
        &&& forall|i: int|
            0 <= i < templates().len() ==> (#[trigger] v[2 + i] matches Source::Remote {
                url,
                compression,
                archive,
                save,
            } && url@ == render(
                templates()[i],
                variant_name(self.variant),
                self.spec_sha(),
                self.sysroot.triple@,
            ) && compression == templates()[i].compression && archive@ == self.spec_archive_path(
                compression,
            ) && save == self.sysroot.save_download)
    }

    pub open spec fn spec_archive_path(&self, c: Compression) -> Seq<char> {
        archive_path_of(
            self.sysroot.directory@,
            self.spec_sha(),
            self.sysroot.triple@,
            variant_name(self.variant),
            c,
        )
    }
}

/// The build-tool commit that goes with a compiler commit.
pub open spec fn cargo_sha_for(commit: Commit) -> Seq<char> {
    if commit.date < CARGO_CUTOFF {
        FALLBACK_CARGO_SHA@
    } else {
        commit.sha@
    }
}

impl SysrootDownload {
    /// The download of the sysroot of `commit` for `triple` into the cache directory; the
    /// flag tells whether the fallback build tool stands in for the commit's own.
    pub fn new(commit: &Commit, triple: &str, preserve: bool) -> (r: (SysrootDownload, bool))
        ensures
            r.0.directory@ == CACHE_DIR@,
            r.0.save_download == preserve,
            r.0.rust_sha@ == commit.sha@,
            r.0.cargo_sha@ == cargo_sha_for(*commit),
            r.0.triple@ == triple@,
            r.1 == (commit.date < CARGO_CUTOFF),
    {
        let used_fallback_cargo = commit.date < CARGO_CUTOFF;
        let cargo_sha = if used_fallback_cargo {
            FALLBACK_CARGO_SHA.to_owned()
        } else {
            commit.sha.clone()
        };
        (
            SysrootDownload {
                directory: CACHE_DIR.to_owned(),
                save_download: preserve,
                rust_sha: commit.sha.clone(),
                cargo_sha,
                triple: triple.to_owned(),
            },
            used_fallback_cargo,
        )
    }

    /// The module of this download whose archive name is `module`, if any.
    pub fn get_module(&self, module: &str) -> (r: Option<Module<'_>>)
        ensures
            r matches Some(m) ==> variant_name(m.variant) == module@ && m.sysroot == self,
            r is None ==> forall|v: ModuleVariant| variant_name(v) != module@,
    {
        match module_variant(module) {
            Some(variant) => Some(Module { variant, sysroot: self }),
            None => None,
        }
    }

    /// The sources, in order, from which the module named `module` is fetched and
    /// extracted, if there is such a module.
    pub fn get_and_extract(&self, module: &str) -> (r: Option<Vec<Source>>)
        ensures
            r is Some <==> exists|v: ModuleVariant| variant_name(v) == module@,
            r matches Some(v) ==> exists|var: ModuleVariant|
                variant_name(var) == module@ && (Module { variant: var, sysroot: self }).are_sources(
                    v@,
                ),
    {
        match self.get_module(module) {
            Some(m) => Some(m.sources()),
            None => None,
        }
    }

    /// The directory into which every module of this download is extracted:
    /// `<directory>/<sha>`.
    pub fn extraction_root(&self) -> (r: String)
        ensures
            r@ == self.directory@ + "/"@ + self.rust_sha@,
    {
        let p = join(self.directory.as_str(), "/");
        join(&p, self.rust_sha.as_str())
    }

    /// The sysroot handle for this download, once every module is extracted. Its paths lie
    /// under the extraction root.
    pub fn into_sysroot(self, used_fallback_cargo: bool, is_saving_sysroot: bool) -> (r: Sysroot)
        ensures
            r.sha@ == self.rust_sha@,
            r.rustc@ == self.directory@ + "/"@ + self.rust_sha@ + "/rustc/bin/rustc"@,
            r.rustdoc@ == self.directory@ + "/"@ + self.rust_sha@ + "/rustc/bin/rustdoc"@,
            r.cargo@ == self.directory@ + "/"@ + self.rust_sha@ + "/cargo/bin/cargo"@,
            r.triple == self.triple,
            r.preserve == self.save_download,
            r.used_fallback_cargo == used_fallback_cargo,
            r.is_saving_sysroot == is_saving_sysroot,
    {
        let root = self.extraction_root();
        let rustc = join(&root, "/rustc/bin/rustc");
        let rustdoc = join(&root, "/rustc/bin/rustdoc");
        let cargo = join(&root, "/cargo/bin/cargo");
        Sysroot {
            sha: self.rust_sha,
            rustc,
            rustdoc,
            cargo,
            triple: self.triple,
            preserve: self.save_download,
            used_fallback_cargo,
            is_saving_sysroot,
        }
    }
}

/// A sysroot installed for one commit: the paths of its compiler, documentation tool and
/// build tool, and whether its directory outlives the handle.
#[derive(Debug)]
pub struct Sysroot {
    pub sha: String,
    pub rustc: String,
    pub rustdoc: String,
    pub cargo: String,
    pub triple: String,
    pub preserve: bool,
    pub used_fallback_cargo: bool,
    pub is_saving_sysroot: bool,
}

/// `path` relative to `base`, where `path` lies under `base`.
pub open spec fn relative_to(path: Seq<char>, base: Seq<char>) -> Option<Seq<char>> {
    if path == base {
        Some(Seq::empty())
    } else if is_prefix(base + "/"@, path) {
        Some(path.subrange(base.len() + 1 as int, path.len() as int))
    } else {
        None
    }
}

/// `path` relative to `base`, where `path` lies under `base`.
pub fn relative_path(path: &str, base: &str) -> (r: Option<String>)
    ensures
        r is Some <==> relative_to(path@, base@) is Some,
        r matches Some(s) ==> Some(s@) == relative_to(path@, base@),
{
    if path.to_owned() == base.to_owned() {
        return Some(String::new());
    }
    let b = join(base, "/");
    proof {
        reveal_strlit("/");
    }
    if starts_with(path, b.as_str()) {
        Some(slice_from(path, b.unicode_len()))
    } else {
        None
    }
}

impl Sysroot {
    /// The directory that holds this sysroot: `cache/<sha>`.
    pub fn directory(&self) -> (r: String)
        ensures
            r@ == CACHE_DIR@ + "/"@ + self.sha@,
    {
        let p = join(CACHE_DIR, "/");
        join(&p, self.sha.as_str())
    }

    /// The directory to remove when the handle is dropped: none where the sysroot is saved.
    pub fn removal_on_drop(&self) -> (r: Option<String>)
        ensures
            r is None <==> self.is_saving_sysroot,
            r matches Some(d) ==> d@ == CACHE_DIR@ + "/"@ + self.sha@,
    {
        if self.is_saving_sysroot {
            None
        } else {
            Some(self.directory())
        }
    }

    /// The environment of a test run, given the inherited `PATH` and the working directory
    /// against which the tools' paths are made relative: `PATH`, then each tool's absolute
    /// and relative path. `None` where a tool does not lie under `cwd`.
    pub fn environment(&self, path: String, cwd: &str) -> (r: Option<Vec<(String, String)>>)
        ensures
            r is Some <==> relative_to(self.cargo@, cwd@) is Some && relative_to(self.rustc@, cwd@) is Some
                && relative_to(self.rustdoc@, cwd@) is Some,
            r matches Some(env) ==> {
                &&& env@.len() == 7
                &&& env@[0].0@ == "PATH"@ && env@[0].1 == path
                &&& env@[1].0@ == "CARGO"@ && env@[1].1 == self.cargo
                &&& env@[2].0@ == "CARGO_RELATIVE"@ && Some(env@[2].1@) == relative_to(self.cargo@, cwd@)
                &&& env@[3].0@ == "RUSTC"@ && env@[3].1 == self.rustc
                &&& env@[4].0@ == "RUSTC_RELATIVE"@ && Some(env@[4].1@) == relative_to(self.rustc@, cwd@)
                &&& env@[5].0@ == "RUSTDOC"@ && env@[5].1 == self.rustdoc
                &&& env@[6].0@ == "RUSTDOC_RELATIVE"@ && Some(env@[6].1@) == relative_to(self.rustdoc@, cwd@)
            },
    {
        let cargo_rel = match relative_path(self.cargo.as_str(), cwd) {
            Some(p) => p,
            None => return None,
        };
        let rustc_rel = match relative_path(self.rustc.as_str(), cwd) {
            Some(p) => p,
            None => return None,
        };
        let rustdoc_rel = match relative_path(self.rustdoc.as_str(), cwd) {
            Some(p) => p,
            None => return None,
        };
        let mut env: Vec<(String, String)> = Vec::new();
        env.push(("PATH".to_owned(), path));
        env.push(("CARGO".to_owned(), self.cargo.clone()));
        env.push(("CARGO_RELATIVE".to_owned(), cargo_rel));
        env.push(("RUSTC".to_owned(), self.rustc.clone()));
        env.push(("RUSTC_RELATIVE".to_owned(), rustc_rel));
        env.push(("RUSTDOC".to_owned(), self.rustdoc.clone()));
        env.push(("RUSTDOC_RELATIVE".to_owned(), rustdoc_rel));
        Some(env)
    }
}

/// What to do with one archive entry, as paths relative to the extraction root.
pub enum PlanSpec {
    Skip,
    Unpack(Seq<char>),
    Link(Seq<char>, Seq<char>),
}

/// What to do with one archive entry.
#[derive(Debug)]
pub enum EntryPlan {
    /// The entry is not part of the sysroot.
    Skip,
    /// Unpack the entry at this path under the extraction root.
    Unpack(String),
    /// Do not unpack the entry; once every module is extracted, hard-link `dst` to `src`,
    /// both under the extraction root.
    Link { src: String, dst: String },
}

impl View for EntryPlan {
    type V = PlanSpec;

    open spec fn view(&self) -> PlanSpec {
        match self {
            EntryPlan::Skip => PlanSpec::Skip,
            EntryPlan::Unpack(p) => PlanSpec::Unpack(p@),
            EntryPlan::Link { src, dst } => PlanSpec::Link(src@, dst@),
        }
    }
}

/// Why an archive entry cannot be placed.
#[derive(Debug, Clone, Copy, PartialEq, Eq, Structural)]
pub enum ExtractError {
    /// A shared library of the standard library lies outside `<triple>/lib/`.
    MissingLibraryPrefix,
}

/// The extension of shared libraries on the platform of `triple`.
pub open spec fn shared_library_extension(triple: Seq<char>) -> Seq<char> {
    if is_suffix("darwin"@, triple) {
        "dylib"@
    } else if is_suffix("windows-msvc"@, triple) || is_suffix("windows-gnu"@, triple) {
        "dll"@
    } else {
        "so"@
    }
}

/// The path names a file whose extension is `ext`.
pub open spec fn has_extension(p: Seq<char>, ext: Seq<char>) -> bool {
    &&& is_suffix("."@ + ext, p)
    &&& p.len() > ext.len() + 1
    &&& p[p.len() - ext.len() - 2] != '/'
}

/// The entry's path without its top-level container directory.
pub open spec fn container_rest(path: Seq<char>) -> Seq<char> {
    let k = index_from(path, '/', 0);
    if k >= path.len() {
        Seq::empty()
    } else {
        path.subrange(k + 1, path.len() as int)
    }
}

/// The library prefix of the standard-library archive.
pub open spec fn std_prefix(triple: Seq<char>) -> Seq<char> {
    "rust-std-"@ + triple + "/lib/rustlib/"@
}

/// Where an entry of a module's archive goes.
pub open spec fn entry_plan(variant: ModuleVariant, triple: Seq<char>, path: Seq<char>) -> Result<
    PlanSpec,
    ExtractError,
> {
    let rest = container_rest(path);
    if rest.len() == 0 {
        Ok(PlanSpec::Skip)
    } else if variant != ModuleVariant::Std {
        Ok(PlanSpec::Unpack(rest))
    } else if !is_prefix(std_prefix(triple), rest) {
        Ok(PlanSpec::Skip)
    } else {
        let q = rest.subrange(std_prefix(triple).len() as int, rest.len() as int);
        let lib = triple + "/lib/"@;
        if q.len() == 0 {
            Ok(PlanSpec::Skip)
        } else if !has_extension(q, shared_library_extension(triple)) {
            Ok(PlanSpec::Unpack("rustc/lib/rustlib/"@ + q))
        } else if !is_prefix(lib, q) {
            Err(ExtractError::MissingLibraryPrefix)
        } else {
            Ok(
                PlanSpec::Link(
                    "rustc/lib/"@ + q.subrange(lib.len() as int, q.len() as int),
                    "rustc/lib/rustlib/"@ + q,
                ),
            )
        }
    }
}

/// The extension of shared libraries on the platform of `triple`.
pub fn shared_library_ext(triple: &str) -> (r: &'static str)
    ensures
        r@ == shared_library_extension(triple@),
{
    if ends_with(triple, "darwin") {
        "dylib"
    } else if ends_with(triple, "windows-msvc") || ends_with(triple, "windows-gnu") {
        "dll"
    } else {
        "so"
    }
}

/// Whether the path names a file whose extension is `ext`.
pub fn is_extension(p: &str, ext: &str) -> (r: bool)
    ensures
        r == has_extension(p@, ext@),
{
    let dotted = join(".", ext);
    proof {
        reveal_strlit(".");
    }
    let n = p.unicode_len();
    let m = ext.unicode_len();
    if !ends_with(p, dotted.as_str()) || n <= m + 1 {
        return false;
    }
    p.get_char(n - m - 2) != '/'
}

/// Where an entry of a module's archive goes. The top-level container directory is always
/// dropped. The compiler and build-tool archives are unpacked as they are. Of the
/// standard-library archive only what lies under its library prefix is kept, relocated
/// under `rustc/lib/rustlib/`; its shared libraries are linked from the compiler's own
/// `rustc/lib/` instead of being unpacked.
pub fn plan_entry(variant: ModuleVariant, triple: &str, path: &str) -> (r: Result<
    EntryPlan,
    ExtractError,
>)
    ensures
        r is Err <==> entry_plan(variant, triple@, path@) is Err,
        r matches Err(e) ==> entry_plan(variant, triple@, path@) == Err::<PlanSpec, ExtractError>(
            e,
        ),
        r matches Ok(p) ==> entry_plan(variant, triple@, path@) == Ok::<PlanSpec, ExtractError>(
            p@,
        ),
{
    proof {
        reveal_strlit("/lib/");
    }
    let n = path.unicode_len();
    let k = find_char(path, '/', 0);
    if k >= n {
        return Ok(EntryPlan::Skip);
    }
    let rest = slice(path, k + 1, n);
    assert(rest@ == container_rest(path@));
    if rest.unicode_len() == 0 {
        return Ok(EntryPlan::Skip);
    }
    match variant {
        ModuleVariant::Std => {},
        _ => {
            return Ok(EntryPlan::Unpack(rest));
        },
    }
    let prefix = join(join("rust-std-", triple).as_str(), "/lib/rustlib/");
    assert(prefix@ =~= std_prefix(triple@));
    if !starts_with(rest.as_str(), prefix.as_str()) {
        return Ok(EntryPlan::Skip);
    }
    let q = slice_from(rest.as_str(), prefix.unicode_len());
    if q.unicode_len() == 0 {
        return Ok(EntryPlan::Skip);
    }
    if !is_extension(q.as_str(), shared_library_ext(triple)) {
        return Ok(EntryPlan::Unpack(join("rustc/lib/rustlib/", q.as_str())));
    }
    let lib = join(triple, "/lib/");
    if !starts_with(q.as_str(), lib.as_str()) {
        return Err(ExtractError::MissingLibraryPrefix);
    }
    let src = join("rustc/lib/", slice_from(q.as_str(), lib.unicode_len()).as_str());
    let dst = join("rustc/lib/rustlib/", q.as_str());
    Ok(EntryPlan::Link { src, dst })
}

/// A shared library of the standard-library archive is never unpacked where it lies: it
/// becomes a hard link whose source is the same file under the compiler's library directory.
pub proof fn lemma_shared_libraries_are_linked(triple: Seq<char>, path: Seq<char>, file: Seq<char>)
    requires
        container_rest(path) == std_prefix(triple) + triple + "/lib/"@ + file,
        has_extension(triple + "/lib/"@ + file, shared_library_extension(triple)),
    ensures
        entry_plan(ModuleVariant::Std, triple, path) == Ok::<PlanSpec, ExtractError>(
            PlanSpec::Link(
                "rustc/lib/"@ + file,
                "rustc/lib/rustlib/"@ + triple + "/lib/"@ + file,
            ),
        ),
{
    let rest = container_rest(path);
    let p = std_prefix(triple);
    let lib = triple + "/lib/"@;
    let q = rest.subrange(p.len() as int, rest.len() as int);
    assert(rest.subrange(0, p.len() as int) =~= p);
    assert(q =~= lib + file);
    assert(q.subrange(0, lib.len() as int) =~= lib);
    assert(q.subrange(lib.len() as int, q.len() as int) =~= file);
    assert(("rustc/lib/rustlib/"@ + q) =~= ("rustc/lib/rustlib/"@ + triple + "/lib/"@ + file));
}

/// For a commit older than the cutoff, the build-tool module is fetched for the fallback
/// commit while the compiler and standard-library modules keep the requested commit.
pub proof fn lemma_old_commits_pin_the_build_tool(commit: Commit, d: SysrootDownload)
    requires
        commit.date < CARGO_CUTOFF,
        d.rust_sha@ == commit.sha@,
        d.cargo_sha@ == cargo_sha_for(commit),
    ensures
        (Module { variant: ModuleVariant::Cargo, sysroot: &d }).spec_sha() == FALLBACK_CARGO_SHA@,
        (Module { variant: ModuleVariant::Rustc, sysroot: &d }).spec_sha() == commit.sha@,
        (Module { variant: ModuleVariant::Std, sysroot: &d }).spec_sha() == commit.sha@,
{
}

/// The position, among the sources of a module, of the cached archive with compression `c`.
pub open spec fn cached_position(c: Compression) -> int {
    match c {
        Compression::Xz => 0,
        Compression::Gz => 1,
    }
}

/// The last position before `end` that holds `c`, or `-1` where none does.
pub open spec fn last_index_before(s: Seq<char>, c: char, end: int) -> int
    decreases end,
{
    if end <= 0 {
        -1
    } else if s[end - 1] == c {
        end - 1
    } else {
        last_index_before(s, c, end - 1)
    }
}

/// The documentation tool beside a compiler at `rustc`: `rustdoc` in the same directory.
pub open spec fn rustdoc_beside(rustc: Seq<char>) -> Option<Seq<char>> {
    let k = last_index_before(rustc, '/', rustc.len() as int);
    if k < 0 {
        None
    } else {
        Some(rustc.subrange(0, k) + "/rustdoc"@)
    }
}

impl Sysroot {
    /// A sysroot that pairs a local compiler, at the absolute path `rustc`, with the build
    /// tool of a download whose build-tool module is extracted; `None` where `rustc` names
    /// no directory.
    pub fn with_local_rustc(
        download: SysrootDownload,
        rustc: String,
        used_fallback_cargo: bool,
        is_saving_sysroot: bool,
    ) -> (r: Option<Sysroot>)
        ensures
            r is None <==> rustdoc_beside(rustc@) is None,
            r matches Some(s) ==> {
                &&& s.sha@ == download.rust_sha@
                &&& s.rustc == rustc
                &&& Some(s.rustdoc@) == rustdoc_beside(rustc@)
                &&& s.cargo@ == download.directory@ + "/"@ + download.rust_sha@ + "/cargo/bin/cargo"@
                &&& s.triple == download.triple
                &&& s.preserve == download.save_download
                &&& s.used_fallback_cargo == used_fallback_cargo
                &&& s.is_saving_sysroot == is_saving_sysroot
            },
    {
        let n = rustc.as_str().unicode_len();
        let mut k: usize = n;
        while k > 0 && rustc.as_str().get_char(k - 1) != '/'
            invariant
                k <= n,
                n == rustc@.len(),
                last_index_before(rustc@, '/', n as int) == last_index_before(rustc@, '/', k as int),
            decreases k,
        {
            k = k - 1;
        }
        if k == 0 {
            return None;
        }
        let rustdoc = join(slice(rustc.as_str(), 0, k - 1).as_str(), "/rustdoc");
        let root = download.extraction_root();
        let cargo = join(&root, "/cargo/bin/cargo");
        Some(Sysroot {
            sha: download.rust_sha,
            rustc,
            rustdoc,
            cargo,
            triple: download.triple,
            preserve: download.save_download,
            used_fallback_cargo,
            is_saving_sysroot,
        })
    }
}

/// Source `k` is worth an attempt: it is a mirror, or a cached archive that is present.
pub open spec fn worth_trying(sources: Seq<Source>, present: Seq<bool>, k: int) -> bool {
    sources[k] is Remote || (k < present.len() && present[k])
}

/// The next source at or after `from` worth an attempt, given which of the sources'
/// cached archives are present on disk (`present[k]` for source `k`); `None` once every
/// source has been tried.
pub fn next_attempt(sources: &Vec<Source>, present: &Vec<bool>, from: usize) -> (r: Option<usize>)
    ensures
        r matches Some(k) ==> from <= k < sources@.len() && worth_trying(sources@, present@, k as int)
            && forall|j: int| from <= j < k ==> !worth_trying(sources@, present@, j),
        r is None ==> forall|j: int| from <= j < sources@.len() ==> !worth_trying(sources@, present@, j),
{
    let mut k: usize = from;
    while k < sources.len()
        invariant
            from <= k,
            forall|j: int| from <= j < k ==> !worth_trying(sources@, present@, j),
        decreases sources@.len() - k,
    {
        let worth = match &sources[k] {
            Source::Remote { .. } => true,
            Source::Cached { .. } => k < present.len() && present[k],
        };
        if worth {
            return Some(k);
        }
        k = k + 1;
    }
    None
}

/// When a module's archive was saved by an earlier acquisition, the next acquisition of the
/// same module starts with that cached archive: no mirror is attempted first.
pub proof fn lemma_saved_archive_avoids_network(
    m: Module<'_>,
    sources: Seq<Source>,
    present: Seq<bool>,
    c: Compression,
)
    requires
        m.are_sources(sources),
        present.len() >= 2,
        present[cached_position(c)],
    ensures
        exists|k: int| 0 <= k < 2 && worth_trying(sources, present, k),
        forall|k: int|
            0 <= k < sources.len() && worth_trying(sources, present, k) && (forall|j: int|
                0 <= j < k ==> !worth_trying(sources, present, j)) ==> k < 2 && sources[k] is Cached,
{
    assert(worth_trying(sources, present, cached_position(c)));
}

} // verus!
