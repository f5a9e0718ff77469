//! What the registry stores and exchanges: users, the metadata of a published
//! version, the line that the index holds for it, and a crate's entry.
//!
//! Every type has a view made of plain values (`Seq<char>` for a string,
//! `Seq` for a `Vec`), which is what the contracts of the crate speak of.

use crate::text::distinct_texts;
use crate::version::{semver_accepts, version_lt, Precedence, Version};
use vstd::prelude::*;

verus! {

/// A copy of `text`.
pub fn copy_text(text: &Option<String>) -> (out: Option<String>)
    ensures
        out == *text,
{
    match text {
        Some(t) => Some(t.clone()),
        None => None,
    }
}

/// A copy of `texts`.
pub fn copy_texts(texts: &Vec<String>) -> (out: Vec<String>)
    ensures
        out@ == texts@,
        out.deep_view() == texts.deep_view(),
{
    let mut out: Vec<String> = Vec::new();
    let mut i: usize = 0;
    while i < texts.len()
        invariant
            i <= texts.len(),
            out@ == texts@.take(i as int),
        decreases texts.len() - i,
    {
        out.push(texts[i].clone());
        i += 1;
    }
    assert(texts@.take(i as int) == texts@);
    assert(out.deep_view() =~= texts.deep_view());
    out
}

/// A registered user, as plain values.
pub struct UserView {
    pub id: u32,
    pub login: Seq<char>,
    pub name: Option<Seq<char>>,
}

/// A registered user.
#[derive(Debug)]
pub struct User {
    pub id: u32,
    pub login: String,
    pub name: Option<String>,
}

impl DeepView for User {
    type V = UserView;

    open spec fn deep_view(&self) -> UserView {
        UserView { id: self.id, login: self.login@, name: self.name.deep_view() }
    }
}

impl View for User {
    type V = UserView;

    open spec fn view(&self) -> UserView {
        self.deep_view()
    }
}

impl User {
    /// The user with the given id, login and display name.
    pub fn new(id: u32, login: String, name: Option<String>) -> (user: User)
        ensures
            user == (User { id, login, name }),
    {
        User { id, login, name }
    }
}

impl Clone for User {
    fn clone(&self) -> (user: User)
        ensures
            user == *self,
    {
        User { id: self.id, login: self.login.clone(), name: copy_text(&self.name) }
    }
}

/// A dependency of a publish request, as plain values.
pub struct MetadataDependencyView {
    pub name: Seq<char>,
    pub version_req: Seq<char>,
    pub features: Seq<Seq<char>>,
    pub optional: bool,
    pub default_features: bool,
    pub target: Option<Seq<char>>,
    pub kind: Option<Seq<char>>,
    pub registry: Option<Seq<char>>,
    pub explicit_name_in_toml: Option<Seq<char>>,
}

/// A dependency as a publish request states it.
#[derive(Debug)]
pub struct MetadataDependency {
    pub name: String,
    pub version_req: String,
    pub features: Vec<String>,
    pub optional: bool,
    pub default_features: bool,
    pub target: Option<String>,
    pub kind: Option<String>,
    pub registry: Option<String>,
    pub explicit_name_in_toml: Option<String>,
}

impl DeepView for MetadataDependency {
    type V = MetadataDependencyView;

    open spec fn deep_view(&self) -> MetadataDependencyView {
        MetadataDependencyView {
            name: self.name@,
            version_req: self.version_req@,
            features: self.features.deep_view(),
            optional: self.optional,
            default_features: self.default_features,
            target: self.target.deep_view(),
            kind: self.kind.deep_view(),
            registry: self.registry.deep_view(),
            explicit_name_in_toml: self.explicit_name_in_toml.deep_view(),
        }
    }
}

impl View for MetadataDependency {
    type V = MetadataDependencyView;

    open spec fn view(&self) -> MetadataDependencyView {
        self.deep_view()
    }
}

impl Clone for MetadataDependency {
    fn clone(&self) -> (copy: MetadataDependency)
        ensures
            copy@ == self@,
    {
        MetadataDependency {
            name: self.name.clone(),
            version_req: self.version_req.clone(),
            features: copy_texts(&self.features),
            optional: self.optional,
            default_features: self.default_features,
            target: copy_text(&self.target),
            kind: copy_text(&self.kind),
            registry: copy_text(&self.registry),
            explicit_name_in_toml: copy_text(&self.explicit_name_in_toml),
        }
    }
}

/// A dependency of an index line, as plain values.
pub struct DependencyView {
    pub name: Seq<char>,
    pub req: Seq<char>,
    pub features: Seq<Seq<char>>,
    pub optional: bool,
    pub default_features: bool,
    pub target: Option<Seq<char>>,
    pub kind: Option<Seq<char>>,
    pub registry: Option<Seq<char>>,
    pub package: Option<Seq<char>>,
}

/// A dependency as the index states it.
#[derive(Debug)]
pub struct Dependency {
    pub name: String,
    pub req: String,
    pub features: Vec<String>,
    pub optional: bool,
    pub default_features: bool,
    pub target: Option<String>,
    pub kind: Option<String>,
    pub registry: Option<String>,
    pub package: Option<String>,
}

impl DeepView for Dependency {
    type V = DependencyView;

    open spec fn deep_view(&self) -> DependencyView {
        DependencyView {
            name: self.name@,
            req: self.req@,
            features: self.features.deep_view(),
            optional: self.optional,
            default_features: self.default_features,
            target: self.target.deep_view(),
            kind: self.kind.deep_view(),
            registry: self.registry.deep_view(),
            package: self.package.deep_view(),
        }
    }
}

impl View for Dependency {
    type V = DependencyView;

    open spec fn view(&self) -> DependencyView {
        self.deep_view()
    }
}

/// The index form of the dependency `val`. Where the crate renamed the
/// dependency, the index names it by the new name and keeps the name of the
/// package it stands for in `package`.
pub open spec fn index_dependency(val: MetadataDependencyView) -> DependencyView {
    DependencyView {
        name: match val.explicit_name_in_toml {
            Some(renamed) => renamed,
            None => val.name,
        },
        req: val.version_req,
        features: val.features,
        optional: val.optional,
        default_features: val.default_features,
        target: val.target,
        kind: val.kind,
        registry: val.registry,
        package: match val.explicit_name_in_toml {
            Some(_) => Some(val.name),
            None => None,
        },
    }
}

impl From<MetadataDependency> for Dependency {
    /// Turns a dependency of a publish request into its index form.
    fn from(val: MetadataDependency) -> (dep: Dependency)
        ensures
            dep@ == index_dependency(val@),
    {
        let (name, package) = match val.explicit_name_in_toml {
            Some(renamed) => (renamed, Some(val.name)),
            None => (val.name, None),
        };
        Dependency {
            name,
            req: val.version_req,
            features: val.features,
            optional: val.optional,
            default_features: val.default_features,
            target: val.target,
            kind: val.kind,
            registry: val.registry,
            package,
        }
    }
}

impl vstd::std_specs::convert::FromSpecImpl<MetadataDependency> for Dependency {
    open spec fn obeys_from_spec() -> bool {
        true
    }

    open spec fn from_spec(val: MetadataDependency) -> Dependency {
        Dependency {
            name: match val.explicit_name_in_toml {
                Some(renamed) => renamed,
                None => val.name,
            },
            req: val.version_req,
            features: val.features,
            optional: val.optional,
            default_features: val.default_features,
            target: val.target,
            kind: val.kind,
            registry: val.registry,
            package: match val.explicit_name_in_toml {
                Some(_) => Some(val.name),
                None => None,
            },
        }
    }
}

/// A feature of a crate and what it enables, as plain values.
pub type FeatureView = (Seq<char>, Seq<Seq<char>>);

/// A copy of the feature table `features`.
pub fn copy_features(features: &Vec<(String, Vec<String>)>) -> (out: Vec<(String, Vec<String>)>)
    ensures
        out.deep_view() == features.deep_view(),
{
    let mut out: Vec<(String, Vec<String>)> = Vec::new();
    let mut i: usize = 0;
    while i < features.len()
        invariant
            i <= features.len(),
            out.len() == i,
            forall|j: int| 0 <= j < i ==> out@[j].deep_view() == features@[j].deep_view(),
        decreases features.len() - i,
    {
        let entry = &features[i];
        out.push((entry.0.clone(), copy_texts(&entry.1)));
        i += 1;
    }
    assert(out.deep_view() =~= features.deep_view());
    out
}

/// The metadata of a published version, as plain values.
pub struct MetadataView {
    pub name: Seq<char>,
    pub vers: Seq<char>,
    pub deps: Seq<MetadataDependencyView>,
    pub features: Seq<FeatureView>,
    pub authors: Seq<Seq<char>>,
    pub description: Option<Seq<char>>,
    pub documentation: Option<Seq<char>>,
    pub homepage: Option<Seq<char>>,
    pub readme: Option<Seq<char>>,
    pub readme_file: Option<Seq<char>>,
    pub keywords: Seq<Seq<char>>,
    pub categories: Seq<Seq<char>>,
    pub license: Option<Seq<char>>,
    pub license_file: Option<Seq<char>>,
    pub repository: Option<Seq<char>>,
    pub badges: Seq<(Seq<char>, Seq<(Seq<char>, Seq<char>)>)>,
    pub links: Option<Seq<char>>,
    pub yanked: bool,
}

/// The metadata that a publish request carries for one version of a crate.
#[derive(Debug)]
pub struct Metadata {
    pub name: String,
    pub vers: Version,
    pub deps: Vec<MetadataDependency>,
    pub features: Vec<(String, Vec<String>)>,
    pub authors: Vec<String>,
    pub description: Option<String>,
    pub documentation: Option<String>,
    pub homepage: Option<String>,
    pub readme: Option<String>,
    pub readme_file: Option<String>,
    pub keywords: Vec<String>,
    pub categories: Vec<String>,
    pub license: Option<String>,
    pub license_file: Option<String>,
    pub repository: Option<String>,
    pub badges: Vec<(String, Vec<(String, String)>)>,
    pub links: Option<String>,
    pub yanked: bool,
}

impl DeepView for Metadata {
    type V = MetadataView;

    open spec fn deep_view(&self) -> MetadataView {
        MetadataView {
            name: self.name@,
            vers: self.vers@,
            deps: self.deps.deep_view(),
            features: self.features.deep_view(),
            authors: self.authors.deep_view(),
            description: self.description.deep_view(),
            documentation: self.documentation.deep_view(),
            homepage: self.homepage.deep_view(),
            readme: self.readme.deep_view(),
            readme_file: self.readme_file.deep_view(),
            keywords: self.keywords.deep_view(),
            categories: self.categories.deep_view(),
            license: self.license.deep_view(),
            license_file: self.license_file.deep_view(),
            repository: self.repository.deep_view(),
            badges: self.badges.deep_view(),
            links: self.links.deep_view(),
            yanked: self.yanked,
        }
    }
}

impl View for Metadata {
    type V = MetadataView;

    open spec fn view(&self) -> MetadataView {
        self.deep_view()
    }
}

/// One line of a crate's index file, as plain values.
pub struct PackageView {
    pub name: Seq<char>,
    pub vers: Seq<char>,
    pub deps: Seq<DependencyView>,
    pub cksum: Seq<char>,
    pub features: Seq<FeatureView>,
    pub yanked: bool,
    pub links: Option<Seq<char>>,
}

/// One line of a crate's index file: a published version as Cargo reads it.
#[derive(Debug)]
pub struct Package {
    pub name: String,
    pub vers: Version,
    pub deps: Vec<Dependency>,
    pub cksum: String,
    pub features: Vec<(String, Vec<String>)>,
    pub yanked: bool,
    pub links: Option<String>,
}

impl DeepView for Package {
    type V = PackageView;

    open spec fn deep_view(&self) -> PackageView {
        PackageView {
            name: self.name@,
            vers: self.vers@,
            deps: self.deps.deep_view(),
            cksum: self.cksum@,
            features: self.features.deep_view(),
            yanked: self.yanked,
            links: self.links.deep_view(),
        }
    }
}

impl View for Package {
    type V = PackageView;

    open spec fn view(&self) -> PackageView {
        self.deep_view()
    }
}

/// A crate found by a search, as plain values.
pub struct SearchedMetadataView {
    pub name: Seq<char>,
    pub max_version: Seq<char>,
    pub description: Seq<char>,
}

/// A crate found by a search: its name, its newest version that is not
/// yanked, and that version's description.
#[derive(Debug)]
pub struct SearchedMetadata {
    pub name: String,
    pub max_version: Version,
    pub description: String,
}

impl DeepView for SearchedMetadata {
    type V = SearchedMetadataView;

    open spec fn deep_view(&self) -> SearchedMetadataView {
        SearchedMetadataView {
            name: self.name@,
            max_version: self.max_version@,
            description: self.description@,
        }
    }
}

impl View for SearchedMetadata {
    type V = SearchedMetadataView;

    open spec fn view(&self) -> SearchedMetadataView {
        self.deep_view()
    }
}

/// The index line of the version that `metadata` describes, for a crate file
/// with the checksum `cksum`. A line is never born yanked.
pub open spec fn index_line(metadata: MetadataView, cksum: Seq<char>) -> PackageView {
    PackageView {
        name: metadata.name,
        vers: metadata.vers,
        deps: metadata.deps.map_values(|d: MetadataDependencyView| index_dependency(d)),
        cksum,
        features: metadata.features,
        yanked: false,
        links: metadata.links,
    }
}

/// The search row of the version that `metadata` describes. A version
/// without a description is listed with an empty one.
pub open spec fn search_row(metadata: MetadataView) -> SearchedMetadataView {
    SearchedMetadataView {
        name: metadata.name,
        max_version: metadata.vers,
        description: match metadata.description {
            Some(d) => d,
            None => Seq::empty(),
        },
    }
}

impl Metadata {
    /// The line that the index holds for this version, given the checksum of
    /// its crate file.
    pub fn to_package(&self, checksum: String) -> (package: Package)
        ensures
            package@ == index_line(self@, checksum@),
    {
        let mut deps: Vec<Dependency> = Vec::new();
        let mut i: usize = 0;
        while i < self.deps.len()
            invariant
                i <= self.deps.len(),
                deps.len() == i,
                forall|j: int| 0 <= j < i ==> deps@[j]@ == index_dependency(self.deps@[j]@),
            decreases self.deps.len() - i,
        {
            deps.push(Dependency::from(self.deps[i].clone()));
            i += 1;
        }
        let package = Package {
            name: self.name.clone(),
            vers: self.vers.clone(),
            deps,
            cksum: checksum,
            features: copy_features(&self.features),
            yanked: false,
            links: copy_text(&self.links),
        };
        assert(package@.deps =~= index_line(self@, checksum@).deps);
        package
    }

    /// The row that a search shows for this version.
    pub fn to_searched(&self) -> (row: SearchedMetadata)
        ensures
            row@ == search_row(self@),
    {
        SearchedMetadata {
            name: self.name.clone(),
            max_version: self.vers.clone(),
            description: match &self.description {
                Some(d) => d.clone(),
                None => String::new(),
            },
        }
    }
}

/// A crate's entry, as plain values.
pub struct EntryView {
    pub versions: Seq<MetadataView>,
    pub owner_ids: Seq<u32>,
}

/// What the registry keeps of one crate: the metadata of every version
/// published, and the ids of the users who own the crate.
#[derive(Debug)]
pub struct Entry {
    pub versions: Vec<Metadata>,
    pub owner_ids: Vec<u32>,
}

impl DeepView for Entry {
    type V = EntryView;

    open spec fn deep_view(&self) -> EntryView {
        EntryView { versions: self.versions.deep_view(), owner_ids: self.owner_ids@ }
    }
}

impl View for Entry {
    type V = EntryView;

    open spec fn view(&self) -> EntryView {
        self.deep_view()
    }
}

/// No two of `versions` describe the same version.
pub open spec fn distinct_versions(versions: Seq<MetadataView>) -> bool {
    forall|i: int, j: int|
        0 <= i < versions.len() && 0 <= j < versions.len() && i != j ==> (#[trigger] versions[i]).vers
            != (#[trigger] versions[j]).vers
}

/// `ids` is in ascending order, without repetition.
pub open spec fn ascending(ids: Seq<u32>) -> bool {
    forall|i: int, j: int| 0 <= i < j < ids.len() ==> ids[i] < ids[j]
}

/// Whether `ids` is in ascending order, without repetition.
pub fn is_ascending(ids: &Vec<u32>) -> (r: bool)
    ensures
        r == ascending(ids@),
{
    if ids.len() < 2 {
        return true;
    }
    let mut j: usize = 1;
    while j < ids.len()
        invariant
            1 <= j <= ids.len(),
            forall|a: int, b: int| 0 <= a < b < j ==> ids@[a] < ids@[b],
        decreases ids.len() - j,
    {
        if ids[j - 1] >= ids[j] {
            assert(!(ids@[j - 1] < ids@[j as int]));
            return false;
        }
        proof {
            assert forall|a: int, b: int| 0 <= a < b < j + 1 implies ids@[a] < ids@[b] by {
                if b == j && a < j - 1 {
                    assert(ids@[a] < ids@[j - 1]);
                }
            }
        }
        j += 1;
    }
    true
}

/// The entry keeps what every entry keeps: each version once, and its owners
/// in ascending order without repetition.
pub open spec fn entry_wf(entry: EntryView) -> bool {
    distinct_versions(entry.versions) && ascending(entry.owner_ids)
}

/// Nothing was published under the entry and nobody owns it.
pub open spec fn entry_is_empty(entry: EntryView) -> bool {
    entry.versions.len() == 0 && entry.owner_ids.len() == 0
}

/// Where among `versions` the version `vers` stands, if it is there.
pub open spec fn version_position(versions: Seq<MetadataView>, vers: Seq<char>) -> Option<int> {
    if exists|i: int| 0 <= i < versions.len() && (#[trigger] versions[i]).vers == vers {
        Some(choose|i: int| 0 <= i < versions.len() && (#[trigger] versions[i]).vers == vers)
    } else {
        None
    }
}

/// The version at `i` counts: every version does where `all` is set, and
/// otherwise only one that is not yanked.
pub open spec fn counts(versions: Seq<MetadataView>, all: bool, i: int) -> bool {
    0 <= i < versions.len() && (all || !versions[i].yanked)
}

/// The version at `j` is the newest of those that count: every other one
/// that counts is strictly older.
pub open spec fn newest_at(versions: Seq<MetadataView>, all: bool, j: int) -> bool {
    &&& counts(versions, all, j)
    &&& forall|i: int| #[trigger]
        counts(versions, all, i) && i != j ==> version_lt(versions[i].vers, versions[j].vers)
}

/// Where the newest version that counts stands, if any version counts.
pub open spec fn newest_position(versions: Seq<MetadataView>, all: bool) -> Option<int> {
    if exists|j: int| newest_at(versions, all, j) {
        Some(choose|j: int| newest_at(versions, all, j))
    } else {
        None
    }
}

/// There is at most one newest version.
pub proof fn lemma_newest_unique(versions: Seq<MetadataView>, all: bool, j: int, k: int)
    requires
        newest_at(versions, all, j),
        newest_at(versions, all, k),
    ensures
        j == k,
{
    if j != k {
        assert(counts(versions, all, j));
        assert(counts(versions, all, k));
        assert(version_lt(versions[j].vers, versions[k].vers));
        assert(version_lt(versions[k].vers, versions[j].vers));
    }
}

/// Finds the newest of `versions`: of all of them where `all` is set, and
/// otherwise of those that are not yanked.
pub fn newest_index(versions: &Vec<Metadata>, all: bool) -> (r: Option<usize>)
    requires
        distinct_versions(versions.deep_view()),
    ensures
        r is None <==> forall|i: int| !counts(versions.deep_view(), all, i),
        r matches Some(j) ==> newest_at(versions.deep_view(), all, j as int),
        r == match newest_position(versions.deep_view(), all) {
            Some(j) => Some(j as usize),
            None => None,
        },
{
    let ghost vs = versions.deep_view();
    let mut best: Option<usize> = None;
    let mut i: usize = 0;
    while i < versions.len()
        invariant
            i <= versions.len(),
            vs == versions.deep_view(),
            distinct_versions(vs),
            best is None ==> forall|k: int| 0 <= k < i ==> !counts(vs, all, k),
            best matches Some(b) ==> b < i && counts(vs, all, b as int) && forall|k: int|
                0 <= k < i && #[trigger] counts(vs, all, k) && k != b ==> version_lt(
                    vs[k].vers,
                    vs[b as int].vers,
                ) && semver_accepts(vs[k].vers),
        decreases versions.len() - i,
    {
        let current = &versions[i];
        if all || !current.yanked {
            match best {
                None => {
                    best = Some(i);
                },
                Some(b) => {
                    match versions[b].vers.compare(&current.vers) {
                        Precedence::Older => {
                            best = Some(i);
                        },
                        Precedence::Same => {
                            assert(vs[b as int].vers != vs[i as int].vers);
                        },
                        Precedence::Newer => {},
                    }
                },
            }
        }
        i += 1;
    }
    proof {
        match best {
            Some(b) => {
                assert(newest_at(vs, all, b as int));
                let j = choose|j: int| newest_at(vs, all, j);
                lemma_newest_unique(vs, all, j, b as int);
            },
            None => {
                assert forall|j: int| !newest_at(vs, all, j) by {
                    if counts(vs, all, j) {
                        assert(0 <= j < i);
                    }
                }
            },
        }
    }
    best
}

impl Entry {
    /// An entry under which nothing was published yet.
    pub fn new() -> (entry: Entry)
        ensures
            entry_is_empty(entry@),
            entry_wf(entry@),
    {
        Entry { versions: Vec::new(), owner_ids: Vec::new() }
    }

    /// Whether nothing was published under this entry and nobody owns it.
    pub fn is_empty(&self) -> (r: bool)
        ensures
            r == entry_is_empty(self@),
    {
        self.versions.len() == 0 && self.owner_ids.len() == 0
    }

    /// The metadata of each version published.
    pub fn versions(&self) -> (versions: &Vec<Metadata>)
        ensures
            versions == &self.versions,
    {
        &self.versions
    }

    /// The ids of the owners.
    pub fn owner_ids(&self) -> (ids: &Vec<u32>)
        ensures
            ids == &self.owner_ids,
    {
        &self.owner_ids
    }

    /// The metadata of each version published, to change them in place.
    pub fn versions_mut(&mut self) -> (versions: &mut Vec<Metadata>)
        ensures
            *versions == old(self).versions,
            final(self).versions == *final(versions),
            final(self).owner_ids == old(self).owner_ids,
    {
        &mut self.versions
    }

    /// The ids of the owners, to change them in place.
    pub fn owner_ids_mut(&mut self) -> (ids: &mut Vec<u32>)
        ensures
            *ids == old(self).owner_ids,
            final(self).owner_ids == *final(ids),
            final(self).versions == old(self).versions,
    {
        &mut self.owner_ids
    }

    /// The newest version published, yanked or not; `None` where none was.
    pub fn latest_version(&self) -> (r: Option<&Version>)
        requires
            entry_wf(self@),
        ensures
            r is None <==> self@.versions.len() == 0,
            r matches Some(v) ==> (newest_position(self@.versions, true) matches Some(j)
                && self@.versions[j].vers == v@),
    {
        match newest_index(&self.versions, true) {
            Some(j) => Some(&self.versions[j].vers),
            None => {
                assert(self@.versions.len() > 0 ==> counts(self@.versions, true, 0));
                None
            },
        }
    }

    /// Where the metadata of `version` stands among the versions, if it was
    /// published.
    pub fn position(&self, version: &Version) -> (r: Option<usize>)
        requires
            entry_wf(self@),
        ensures
            r == match version_position(self@.versions, version@) {
                Some(j) => Some(j as usize),
                None => None,
            },
            r matches Some(j) ==> j < self.versions.len() && self.versions[j as int].vers@
                == version@,
    {
        let ghost vs = self@.versions;
        let mut i: usize = 0;
        while i < self.versions.len()
            invariant
                i <= self.versions.len(),
                vs == self@.versions,
                distinct_versions(vs),
                forall|k: int| 0 <= k < i ==> (#[trigger] vs[k]).vers != version@,
            decreases self.versions.len() - i,
        {
            if self.versions[i].vers.same(version) {
                proof {
                    assert(vs[i as int].vers == version@);
                    let j = choose|j: int| 0 <= j < vs.len() && (#[trigger] vs[j]).vers == version@;
                    assert(j == i);
                }
                return Some(i);
            }
            i += 1;
        }
        None
    }

    /// Whether the entry keeps each version once and its owners in
    /// ascending order without repetition.
    pub fn is_well_formed(&self) -> (r: bool)
        ensures
            r == entry_wf(self@),
    {
        let ghost vs = self@.versions;
        let mut keys: Vec<String> = Vec::new();
        let mut i: usize = 0;
        while i < self.versions.len()
            invariant
                i <= self.versions.len(),
                vs == self.versions.deep_view(),
                keys.len() == i,
                forall|k: int| 0 <= k < i ==> keys@[k]@ == (#[trigger] vs[k]).vers,
            decreases self.versions.len() - i,
        {
            keys.push(self.versions[i].vers.to_string());
            i += 1;
        }
        let versions_ok = distinct_texts(&keys);
        proof {
            if versions_ok {
                assert forall|a: int, b: int|
                    0 <= a < vs.len() && 0 <= b < vs.len() && a != b implies (#[trigger] vs[a]).vers != (
                #[trigger] vs[b]).vers by {
                    assert(keys@[a]@ != keys@[b]@);
                }
            } else {
                if distinct_versions(vs) {
                    assert forall|a: int, b: int|
                        0 <= a < keys.len() && 0 <= b < keys.len() && a != b implies keys@[a]@
                        != keys@[b]@ by {
                        assert(vs[a].vers != vs[b].vers);
                    }
                }
            }
        }
        versions_ok && is_ascending(&self.owner_ids)
    }

    /// The metadata of `version`, to change it in place; `None` where the
    /// version was not published.
    pub fn package_mut(&mut self, version: &Version) -> (r: Option<&mut Metadata>)
        requires
            entry_wf(old(self)@),
        ensures
            match version_position(old(self)@.versions, version@) {
                Some(j) => match r {
                    Some(metadata) => {
                        &&& *metadata == old(self).versions@[j]
                        &&& final(self).versions@ == old(self).versions@.update(j, *final(metadata))
                        &&& final(self).owner_ids == old(self).owner_ids
                    },
                    None => false,
                },
                None => r is None && *final(self) == *old(self),
            },
    {
        match self.position(version) {
            Some(j) => Some(&mut self.versions[j]),
            None => None,
        }
    }

    /// Whether the user `user_id` owns the crate.
    pub fn is_owner(&self, user_id: u32) -> (r: bool)
        ensures
            r == self@.owner_ids.contains(user_id),
    {
        let mut i: usize = 0;
        while i < self.owner_ids.len()
            invariant
                i <= self.owner_ids.len(),
                forall|k: int| 0 <= k < i ==> self.owner_ids@[k] != user_id,
            decreases self.owner_ids.len() - i,
        {
            if self.owner_ids[i] == user_id {
                return true;
            }
            i += 1;
        }
        false
    }
}

/// The logins named by a request that changes a crate's owners.
#[derive(Debug)]
pub struct Owners {
    pub logins: Vec<String>,
}

/// A search request: the text looked for and the number of rows wanted.
#[derive(Debug)]
pub struct Query {
    pub string: String,
    pub limit: usize,
}

/// The number of rows that a search returns where the request names none.
pub fn query_limit_default() -> (limit: usize)
    ensures
        limit == 10,
{
    10
}

impl Query {
    /// A search for `string` that asks for the default number of rows.
    pub fn new(string: String) -> (query: Query)
        ensures
            query.string == string,
            query.limit == 10,
    {
        Query { string, limit: query_limit_default() }
    }
}

/// How many crates matched a search, before any limit.
#[derive(Clone, Copy, Debug)]
pub struct Count {
    pub total: usize,
}

/// The answer to a search.
#[derive(Debug)]
pub struct Search {
    pub crates: Vec<SearchedMetadata>,
    pub meta: Count,
}

impl Search {
    /// The answer that shows `crates` out of `total` matches.
    pub fn new(crates: Vec<SearchedMetadata>, total: usize) -> (search: Search)
        ensures
            search.crates == crates,
            search.meta.total == total,
    {
        Search { crates, meta: Count { total } }
    }
}

/// The password of a login or registration request.
pub struct Credential {
    pub password: String,
}

/// The passwords of a request to change a password.
pub struct ChangePassword {
    pub old_password: String,
    pub new_password: String,
}

} // verus!
