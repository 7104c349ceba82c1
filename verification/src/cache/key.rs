//! Digests with a meaning, and the key of a cached fact.

use crate::cache::digest::{sha256, Digest};
use crate::paths::{parsed, FilePath, PathPart};
use crate::values::{Ordered, Value};
use vstd::prelude::*;

verus! {

/// The digest of the content of a file.
#[derive(Debug, Clone, Copy, PartialEq, Eq, Structural)]
pub struct ContentDigest(pub Digest);

impl ContentDigest {
    /// The digest of these bytes.
    #[must_use]
    pub fn of_bytes(bytes: &[u8]) -> (r: Self)
        ensures
            r.0 == sha256(bytes@),
    {
        ContentDigest(Digest::of_bytes(bytes))
    }
}

impl DeepView for ContentDigest {
    type V = ContentDigest;

    open spec fn deep_view(&self) -> ContentDigest {
        *self
    }
}

impl Value for ContentDigest {
    fn replicate(&self) -> (r: Self) {
        *self
    }

    fn same_value(&self, other: &Self) -> (r: bool) {
        *self == *other
    }
}

/// The digest of the configuration that facts depend on.
#[derive(Debug, Clone, Copy, PartialEq, Eq, Structural)]
pub struct ConfigDigest(pub Digest);

impl ConfigDigest {
    /// The digest of these bytes.
    #[must_use]
    pub fn of_bytes(bytes: &[u8]) -> (r: Self)
        ensures
            r.0 == sha256(bytes@),
    {
        ConfigDigest(Digest::of_bytes(bytes))
    }
}

impl DeepView for ConfigDigest {
    type V = ConfigDigest;

    open spec fn deep_view(&self) -> ConfigDigest {
        *self
    }
}

impl Value for ConfigDigest {
    fn replicate(&self) -> (r: Self) {
        *self
    }

    fn same_value(&self, other: &Self) -> (r: bool) {
        *self == *other
    }
}

/// The digest of the profile that facts depend on.
#[derive(Debug, Clone, Copy, PartialEq, Eq, Structural)]
pub struct ProfileDigest(pub Digest);

impl ProfileDigest {
    /// The digest of these bytes.
    #[must_use]
    pub fn of_bytes(bytes: &[u8]) -> (r: Self)
        ensures
            r.0 == sha256(bytes@),
    {
        ProfileDigest(Digest::of_bytes(bytes))
    }
}

impl DeepView for ProfileDigest {
    type V = ProfileDigest;

    open spec fn deep_view(&self) -> ProfileDigest {
        *self
    }
}

impl Value for ProfileDigest {
    fn replicate(&self) -> (r: Self) {
        *self
    }

    fn same_value(&self, other: &Self) -> (r: bool) {
        *self == *other
    }
}

/// The digest of something else that facts depend on.
#[derive(Debug, Clone, Copy, PartialEq, Eq, Structural)]
pub struct ContextDigest(pub Digest);

impl ContextDigest {
    /// The digest of these bytes.
    #[must_use]
    pub fn of_bytes(bytes: &[u8]) -> (r: Self)
        ensures
            r.0 == sha256(bytes@),
    {
        ContextDigest(Digest::of_bytes(bytes))
    }
}

impl DeepView for ContextDigest {
    type V = ContextDigest;

    open spec fn deep_view(&self) -> ContextDigest {
        *self
    }
}

impl Value for ContextDigest {
    fn replicate(&self) -> (r: Self) {
        *self
    }

    fn same_value(&self, other: &Self) -> (r: bool) {
        *self == *other
    }
}

impl Ordered for Digest {
    open spec fn before(a: Digest, b: Digest) -> bool {
        <u32 as Ordered>::before(a.h0, b.h0) || (a.h0 == b.h0 && (<u32 as Ordered>::before(a.h1, b.h1) || (a.h1 == b.h1 && (<u32 as Ordered>::before(a.h2, b.h2) || (a.h2 == b.h2 && (<u32 as Ordered>::before(a.h3, b.h3) || (a.h3 == b.h3 && (<u32 as Ordered>::before(a.h4, b.h4) || (a.h4 == b.h4 && (<u32 as Ordered>::before(a.h5, b.h5) || (a.h5 == b.h5 && (<u32 as Ordered>::before(a.h6, b.h6) || (a.h6 == b.h6 && (<u32 as Ordered>::before(a.h7, b.h7)))))))))))))))
    }

    fn is_before(&self, other: &Self) -> (r: bool) {
        assert(Self::before(self.deep_view(), other.deep_view()) == (<u32 as Ordered>::before(self.deep_view().h0, other.deep_view().h0) || (self.deep_view().h0 == other.deep_view().h0 && (<u32 as Ordered>::before(self.deep_view().h1, other.deep_view().h1) || (self.deep_view().h1 == other.deep_view().h1 && (<u32 as Ordered>::before(self.deep_view().h2, other.deep_view().h2) || (self.deep_view().h2 == other.deep_view().h2 && (<u32 as Ordered>::before(self.deep_view().h3, other.deep_view().h3) || (self.deep_view().h3 == other.deep_view().h3 && (<u32 as Ordered>::before(self.deep_view().h4, other.deep_view().h4) || (self.deep_view().h4 == other.deep_view().h4 && (<u32 as Ordered>::before(self.deep_view().h5, other.deep_view().h5) || (self.deep_view().h5 == other.deep_view().h5 && (<u32 as Ordered>::before(self.deep_view().h6, other.deep_view().h6) || (self.deep_view().h6 == other.deep_view().h6 && (<u32 as Ordered>::before(self.deep_view().h7, other.deep_view().h7)))))))))))))))));
        if self.h0.is_before(&other.h0) {
            return true;
        }
        if !self.h0.same_value(&other.h0) {
            return false;
        }
        if self.h1.is_before(&other.h1) {
            return true;
        }
        if !self.h1.same_value(&other.h1) {
            return false;
        }
        if self.h2.is_before(&other.h2) {
            return true;
        }
        if !self.h2.same_value(&other.h2) {
            return false;
        }
        if self.h3.is_before(&other.h3) {
            return true;
        }
        if !self.h3.same_value(&other.h3) {
            return false;
        }
        if self.h4.is_before(&other.h4) {
            return true;
        }
        if !self.h4.same_value(&other.h4) {
            return false;
        }
        if self.h5.is_before(&other.h5) {
            return true;
        }
        if !self.h5.same_value(&other.h5) {
            return false;
        }
        if self.h6.is_before(&other.h6) {
            return true;
        }
        if !self.h6.same_value(&other.h6) {
            return false;
        }
        self.h7.is_before(&other.h7)
    }

    proof fn before_irreflexive(a: Digest) {
        <u32 as Ordered>::before_irreflexive(a.h0);
        <u32 as Ordered>::before_irreflexive(a.h1);
        <u32 as Ordered>::before_irreflexive(a.h2);
        <u32 as Ordered>::before_irreflexive(a.h3);
        <u32 as Ordered>::before_irreflexive(a.h4);
        <u32 as Ordered>::before_irreflexive(a.h5);
        <u32 as Ordered>::before_irreflexive(a.h6);
        <u32 as Ordered>::before_irreflexive(a.h7);
    }

    proof fn before_transitive(a: Digest, b: Digest, c: Digest) {
        if <u32 as Ordered>::before(a.h0, b.h0) && <u32 as Ordered>::before(b.h0, c.h0) {
            <u32 as Ordered>::before_transitive(a.h0, b.h0, c.h0);
        }
        if <u32 as Ordered>::before(a.h1, b.h1) && <u32 as Ordered>::before(b.h1, c.h1) {
            <u32 as Ordered>::before_transitive(a.h1, b.h1, c.h1);
        }
        if <u32 as Ordered>::before(a.h2, b.h2) && <u32 as Ordered>::before(b.h2, c.h2) {
            <u32 as Ordered>::before_transitive(a.h2, b.h2, c.h2);
        }
        if <u32 as Ordered>::before(a.h3, b.h3) && <u32 as Ordered>::before(b.h3, c.h3) {
            <u32 as Ordered>::before_transitive(a.h3, b.h3, c.h3);
        }
        if <u32 as Ordered>::before(a.h4, b.h4) && <u32 as Ordered>::before(b.h4, c.h4) {
            <u32 as Ordered>::before_transitive(a.h4, b.h4, c.h4);
        }
        if <u32 as Ordered>::before(a.h5, b.h5) && <u32 as Ordered>::before(b.h5, c.h5) {
            <u32 as Ordered>::before_transitive(a.h5, b.h5, c.h5);
        }
        if <u32 as Ordered>::before(a.h6, b.h6) && <u32 as Ordered>::before(b.h6, c.h6) {
            <u32 as Ordered>::before_transitive(a.h6, b.h6, c.h6);
        }
        if <u32 as Ordered>::before(a.h7, b.h7) && <u32 as Ordered>::before(b.h7, c.h7) {
            <u32 as Ordered>::before_transitive(a.h7, b.h7, c.h7);
        }
    }

    proof fn before_total(a: Digest, b: Digest) {
        <u32 as Ordered>::before_total(a.h0, b.h0);
        <u32 as Ordered>::before_total(a.h1, b.h1);
        <u32 as Ordered>::before_total(a.h2, b.h2);
        <u32 as Ordered>::before_total(a.h3, b.h3);
        <u32 as Ordered>::before_total(a.h4, b.h4);
        <u32 as Ordered>::before_total(a.h5, b.h5);
        <u32 as Ordered>::before_total(a.h6, b.h6);
        <u32 as Ordered>::before_total(a.h7, b.h7);
    }
}

impl Ordered for ContentDigest {
    open spec fn before(a: ContentDigest, b: ContentDigest) -> bool {
        <Digest as Ordered>::before(a.0, b.0)
    }

    fn is_before(&self, other: &Self) -> (r: bool) {
        assert(Self::before(*self, *other) == <Digest as Ordered>::before(self.0, other.0));
        self.0.is_before(&other.0)
    }

    proof fn before_irreflexive(a: ContentDigest) {
        <Digest as Ordered>::before_irreflexive(a.0);
    }

    proof fn before_transitive(a: ContentDigest, b: ContentDigest, c: ContentDigest) {
        <Digest as Ordered>::before_transitive(a.0, b.0, c.0);
    }

    proof fn before_total(a: ContentDigest, b: ContentDigest) {
        <Digest as Ordered>::before_total(a.0, b.0);
    }
}

impl Ordered for ConfigDigest {
    open spec fn before(a: ConfigDigest, b: ConfigDigest) -> bool {
        <Digest as Ordered>::before(a.0, b.0)
    }

    fn is_before(&self, other: &Self) -> (r: bool) {
        assert(Self::before(*self, *other) == <Digest as Ordered>::before(self.0, other.0));
        self.0.is_before(&other.0)
    }

    proof fn before_irreflexive(a: ConfigDigest) {
        <Digest as Ordered>::before_irreflexive(a.0);
    }

    proof fn before_transitive(a: ConfigDigest, b: ConfigDigest, c: ConfigDigest) {
        <Digest as Ordered>::before_transitive(a.0, b.0, c.0);
    }

    proof fn before_total(a: ConfigDigest, b: ConfigDigest) {
        <Digest as Ordered>::before_total(a.0, b.0);
    }
}

impl Ordered for ProfileDigest {
    open spec fn before(a: ProfileDigest, b: ProfileDigest) -> bool {
        <Digest as Ordered>::before(a.0, b.0)
    }

    fn is_before(&self, other: &Self) -> (r: bool) {
        assert(Self::before(*self, *other) == <Digest as Ordered>::before(self.0, other.0));
        self.0.is_before(&other.0)
    }

    proof fn before_irreflexive(a: ProfileDigest) {
        <Digest as Ordered>::before_irreflexive(a.0);
    }

    proof fn before_transitive(a: ProfileDigest, b: ProfileDigest, c: ProfileDigest) {
        <Digest as Ordered>::before_transitive(a.0, b.0, c.0);
    }

    proof fn before_total(a: ProfileDigest, b: ProfileDigest) {
        <Digest as Ordered>::before_total(a.0, b.0);
    }
}

impl Ordered for ContextDigest {
    open spec fn before(a: ContextDigest, b: ContextDigest) -> bool {
        <Digest as Ordered>::before(a.0, b.0)
    }

    fn is_before(&self, other: &Self) -> (r: bool) {
        assert(Self::before(*self, *other) == <Digest as Ordered>::before(self.0, other.0));
        self.0.is_before(&other.0)
    }

    proof fn before_irreflexive(a: ContextDigest) {
        <Digest as Ordered>::before_irreflexive(a.0);
    }

    proof fn before_transitive(a: ContextDigest, b: ContextDigest, c: ContextDigest) {
        <Digest as Ordered>::before_transitive(a.0, b.0, c.0);
    }

    proof fn before_total(a: ContextDigest, b: ContextDigest) {
        <Digest as Ordered>::before_total(a.0, b.0);
    }
}

/// A path that means the same file everywhere.
#[derive(Debug, PartialEq, Eq)]
pub struct CanonicalFileIdentity {
    pub path: String,
}

/// What a [`CanonicalFileIdentity`] holds.
pub struct CanonicalFileIdentityModel {
    pub path: Seq<char>,
}

impl DeepView for CanonicalFileIdentity {
    type V = CanonicalFileIdentityModel;

    open spec fn deep_view(&self) -> CanonicalFileIdentityModel {
        CanonicalFileIdentityModel {
            path: self.path.deep_view(),
        }
    }
}

impl Value for CanonicalFileIdentity {
    fn replicate(&self) -> (r: Self) {
        CanonicalFileIdentity {
            path: self.path.replicate(),
        }
    }

    fn same_value(&self, other: &Self) -> (r: bool) {
        self.path.same_value(&other.path)
    }
}

impl Ordered for CanonicalFileIdentity {
    open spec fn before(a: CanonicalFileIdentityModel, b: CanonicalFileIdentityModel) -> bool {
        <String as Ordered>::before(a.path, b.path)
    }

    fn is_before(&self, other: &Self) -> (r: bool) {
        assert(Self::before(self.deep_view(), other.deep_view()) == (<String as Ordered>::before(self.deep_view().path, other.deep_view().path)));
        self.path.is_before(&other.path)
    }

    proof fn before_irreflexive(a: CanonicalFileIdentityModel) {
        <String as Ordered>::before_irreflexive(a.path);
    }

    proof fn before_transitive(
        a: CanonicalFileIdentityModel,
        b: CanonicalFileIdentityModel,
        c: CanonicalFileIdentityModel,
    ) {
        if <String as Ordered>::before(a.path, b.path) && <String as Ordered>::before(b.path, c.path) {
            <String as Ordered>::before_transitive(a.path, b.path, c.path);
        }
    }

    proof fn before_total(a: CanonicalFileIdentityModel, b: CanonicalFileIdentityModel) {
        <String as Ordered>::before_total(a.path, b.path);
    }
}

/// Whether a path means the same file everywhere: it is not empty, not absolute, and has no
/// steps up.
pub open spec fn is_canonical(path: Seq<char>) -> bool {
    let parts = parsed(path);
    &&& parts.len() > 0
    &&& forall|i: int|
        0 <= i < parts.len() ==> !(#[trigger] parts[i] is Root) && !(parts[i] is Parent)
}

fn is_canonical_path(path: &str) -> (r: bool)
    ensures
        r == is_canonical(path@),
{
    let parts: Vec<PathPart> = FilePath::parse(path).parts;
    let ghost model = parts.deep_view();
    let mut i: usize = 0;
    while i < parts.len()
        invariant
            i <= parts.len(),
            model == parts.deep_view(),
            model == parsed(path@),
            forall|k: int| 0 <= k < i ==> !(#[trigger] model[k] is Root) && !(model[k] is Parent),
        decreases parts.len() - i,
    {
        assert(model[i as int] == parts@[i as int].deep_view());
        match &parts[i] {
            PathPart::Root => {
                return false;
            },
            PathPart::Parent => {
                return false;
            },
            _ => {},
        }
        i = i + 1;
    }
    assert(model.len() == parts@.len());
    parts.len() > 0
}

impl CanonicalFileIdentity {
    /// The identity of the file at a path.
    pub fn new(path: &str) -> (r: Result<CanonicalFileIdentity, &'static str>)
        ensures
            match r {
                Ok(identity) => is_canonical(path@) && identity.path@ == path@,
                Err(reason) => !is_canonical(path@) && reason@
                    == "file identity must be a canonical relative path"@,
            },
    {
        if is_canonical_path(path) {
            Ok(CanonicalFileIdentity { path: path.to_string() })
        } else {
            Err("file identity must be a canonical relative path")
        }
    }
}

/// All that the facts of a file depend on.
#[derive(Debug, PartialEq, Eq)]
pub struct CacheKey {
    pub config: ConfigDigest,
    pub profile: ProfileDigest,
    pub file: CanonicalFileIdentity,
    pub content: ContentDigest,
    pub contexts: Vec<ContextDigest>,
}

/// What a [`CacheKey`] holds.
pub struct CacheKeyModel {
    pub config: ConfigDigest,
    pub profile: ProfileDigest,
    pub file: CanonicalFileIdentityModel,
    pub content: ContentDigest,
    pub contexts: Seq<ContextDigest>,
}

impl DeepView for CacheKey {
    type V = CacheKeyModel;

    open spec fn deep_view(&self) -> CacheKeyModel {
        CacheKeyModel {
            config: self.config.deep_view(),
            profile: self.profile.deep_view(),
            file: self.file.deep_view(),
            content: self.content.deep_view(),
            contexts: self.contexts.deep_view(),
        }
    }
}

impl Value for CacheKey {
    fn replicate(&self) -> (r: Self) {
        CacheKey {
            config: self.config.replicate(),
            profile: self.profile.replicate(),
            file: self.file.replicate(),
            content: self.content.replicate(),
            contexts: self.contexts.replicate(),
        }
    }

    fn same_value(&self, other: &Self) -> (r: bool) {
        self.config.same_value(&other.config)
            && self.profile.same_value(&other.profile)
            && self.file.same_value(&other.file)
            && self.content.same_value(&other.content)
            && self.contexts.same_value(&other.contexts)
    }
}

impl Ordered for CacheKey {
    open spec fn before(a: CacheKeyModel, b: CacheKeyModel) -> bool {
        <ConfigDigest as Ordered>::before(a.config, b.config) || (a.config == b.config && (<ProfileDigest as Ordered>::before(a.profile, b.profile) || (a.profile == b.profile && (<CanonicalFileIdentity as Ordered>::before(a.file, b.file) || (a.file == b.file && (<ContentDigest as Ordered>::before(a.content, b.content) || (a.content == b.content && (<Vec<ContextDigest> as Ordered>::before(a.contexts, b.contexts)))))))))
    }

    fn is_before(&self, other: &Self) -> (r: bool) {
        assert(Self::before(self.deep_view(), other.deep_view()) == (<ConfigDigest as Ordered>::before(self.deep_view().config, other.deep_view().config) || (self.deep_view().config == other.deep_view().config && (<ProfileDigest as Ordered>::before(self.deep_view().profile, other.deep_view().profile) || (self.deep_view().profile == other.deep_view().profile && (<CanonicalFileIdentity as Ordered>::before(self.deep_view().file, other.deep_view().file) || (self.deep_view().file == other.deep_view().file && (<ContentDigest as Ordered>::before(self.deep_view().content, other.deep_view().content) || (self.deep_view().content == other.deep_view().content && (<Vec<ContextDigest> as Ordered>::before(self.deep_view().contexts, other.deep_view().contexts)))))))))));
        if self.config.is_before(&other.config) {
            return true;
        }
        if !self.config.same_value(&other.config) {
            return false;
        }
        if self.profile.is_before(&other.profile) {
            return true;
        }
        if !self.profile.same_value(&other.profile) {
            return false;
        }
        if self.file.is_before(&other.file) {
            return true;
        }
        if !self.file.same_value(&other.file) {
            return false;
        }
        if self.content.is_before(&other.content) {
            return true;
        }
        if !self.content.same_value(&other.content) {
            return false;
        }
        self.contexts.is_before(&other.contexts)
    }

    proof fn before_irreflexive(a: CacheKeyModel) {
        <ConfigDigest as Ordered>::before_irreflexive(a.config);
        <ProfileDigest as Ordered>::before_irreflexive(a.profile);
        <CanonicalFileIdentity as Ordered>::before_irreflexive(a.file);
        <ContentDigest as Ordered>::before_irreflexive(a.content);
        <Vec<ContextDigest> as Ordered>::before_irreflexive(a.contexts);
    }

    proof fn before_transitive(a: CacheKeyModel, b: CacheKeyModel, c: CacheKeyModel) {
        if <ConfigDigest as Ordered>::before(a.config, b.config) && <ConfigDigest as Ordered>::before(b.config, c.config) {
            <ConfigDigest as Ordered>::before_transitive(a.config, b.config, c.config);
        }
        if <ProfileDigest as Ordered>::before(a.profile, b.profile) && <ProfileDigest as Ordered>::before(b.profile, c.profile) {
            <ProfileDigest as Ordered>::before_transitive(a.profile, b.profile, c.profile);
        }
        if <CanonicalFileIdentity as Ordered>::before(a.file, b.file) && <CanonicalFileIdentity as Ordered>::before(b.file, c.file) {
            <CanonicalFileIdentity as Ordered>::before_transitive(a.file, b.file, c.file);
        }
        if <ContentDigest as Ordered>::before(a.content, b.content) && <ContentDigest as Ordered>::before(b.content, c.content) {
            <ContentDigest as Ordered>::before_transitive(a.content, b.content, c.content);
        }
        if <Vec<ContextDigest> as Ordered>::before(a.contexts, b.contexts) && <Vec<ContextDigest> as Ordered>::before(b.contexts, c.contexts) {
            <Vec<ContextDigest> as Ordered>::before_transitive(a.contexts, b.contexts, c.contexts);
        }
    }

    proof fn before_total(a: CacheKeyModel, b: CacheKeyModel) {
        <ConfigDigest as Ordered>::before_total(a.config, b.config);
        <ProfileDigest as Ordered>::before_total(a.profile, b.profile);
        <CanonicalFileIdentity as Ordered>::before_total(a.file, b.file);
        <ContentDigest as Ordered>::before_total(a.content, b.content);
        <Vec<ContextDigest> as Ordered>::before_total(a.contexts, b.contexts);
    }
}

/// Why a key is not valid, if it is not.
pub open spec fn key_fault(key: CacheKeyModel) -> Option<Seq<char>> {
    if is_canonical(key.file.path) {
        None
    } else {
        Some("file identity must be a canonical relative path"@)
    }
}

impl CacheKey {
    /// The key of the facts of a file.
    #[must_use]
    pub fn new(
        config: ConfigDigest,
        profile: ProfileDigest,
        file: CanonicalFileIdentity,
        content: ContentDigest,
        contexts: Vec<ContextDigest>,
    ) -> (r: CacheKey)
        ensures
            r.deep_view() == (CacheKeyModel {
                config,
                profile,
                file: file.deep_view(),
                content,
                contexts: contexts.deep_view(),
            }),
    {
        CacheKey { config, profile, file, content, contexts }
    }

    /// Whether the key is valid, or why it is not.
    pub fn validate(&self) -> (r: Result<(), &'static str>)
        ensures
            match r {
                Ok(_) => key_fault(self.deep_view()) is None,
                Err(reason) => key_fault(self.deep_view()) == Some(reason@),
            },
    {
        if is_canonical_path(&self.file.path) {
            Ok(())
        } else {
            Err("file identity must be a canonical relative path")
        }
    }
}

} // verus!
