use vstd::prelude::*;

verus! {

/// The release track of the game.
#[derive(Debug, Clone, Copy, PartialEq, Eq, Structural)]
pub enum Version {
    Vanilla,
    SpaceAge,
}

/// The operating system and architecture that a build targets.
#[derive(Debug, Clone, Copy, PartialEq, Eq, Structural)]
pub enum Platform {
    Linux64,
    Mac,
    Win64,
}

/// A channel of the release feed: one release track on one platform.
/// `Other` stands for every channel key that this library does not know.
#[derive(Debug, Clone, Copy, PartialEq, Eq, Structural, Hash)]
pub enum Arch {
    CoreLinux64,
    CoreLinuxHeadless64,
    CoreMac,
    CoreWin64,
    CoreExpansionLinux64,
    CoreExpansionMac,
    CoreExpansionWin64,
    Other,
}

impl Version {
    pub open spec fn spec_name(self) -> &'static str {
        match self {
            Version::Vanilla => "vanilla",
            Version::SpaceAge => "space-age",
        }
    }

    /// The track's name as the feed and the file names write it.
    pub fn name(&self) -> (r: &'static str)
        ensures
            r@ == self.spec_name()@,
    {
        match self {
            Version::Vanilla => "vanilla",
            Version::SpaceAge => "space-age",
        }
    }
}

impl Arch {
    /// The channel's key in the release feed.
    pub open spec fn spec_key(self) -> &'static str {
        match self {
            Arch::CoreLinux64 => "core-linux64",
            Arch::CoreLinuxHeadless64 => "core-linux_headless64",
            Arch::CoreMac => "core-mac",
            Arch::CoreWin64 => "core-win64",
            Arch::CoreExpansionLinux64 => "core_expansion-linux64",
            Arch::CoreExpansionMac => "core_expansion-mac",
            Arch::CoreExpansionWin64 => "core_expansion-win64",
            Arch::Other => "Other",
        }
    }

    pub fn key(&self) -> (r: &'static str)
        ensures
            r@ == self.spec_key()@,
    {
        match self {
            Arch::CoreLinux64 => "core-linux64",
            Arch::CoreLinuxHeadless64 => "core-linux_headless64",
            Arch::CoreMac => "core-mac",
            Arch::CoreWin64 => "core-win64",
            Arch::CoreExpansionLinux64 => "core_expansion-linux64",
            Arch::CoreExpansionMac => "core_expansion-mac",
            Arch::CoreExpansionWin64 => "core_expansion-win64",
            Arch::Other => "Other",
        }
    }
}

/// The channel of a release track on a platform. Every supported pair has
/// exactly one channel, and none of them is `Other`.
pub open spec fn arch_of(version: Version, platform: Platform) -> Arch {
    match (version, platform) {
        (Version::Vanilla, Platform::Linux64) => Arch::CoreLinux64,
        (Version::Vanilla, Platform::Mac) => Arch::CoreMac,
        (Version::Vanilla, Platform::Win64) => Arch::CoreWin64,
        (Version::SpaceAge, Platform::Linux64) => Arch::CoreExpansionLinux64,
        (Version::SpaceAge, Platform::Mac) => Arch::CoreExpansionMac,
        (Version::SpaceAge, Platform::Win64) => Arch::CoreExpansionWin64,
    }
}

impl From<(Version, Platform)> for Arch {
    fn from(pair: (Version, Platform)) -> (r: Arch)
        ensures
            r == arch_of(pair.0, pair.1),
    {
        match pair {
            (Version::Vanilla, Platform::Linux64) => Arch::CoreLinux64,
            (Version::Vanilla, Platform::Mac) => Arch::CoreMac,
            (Version::Vanilla, Platform::Win64) => Arch::CoreWin64,
            (Version::SpaceAge, Platform::Linux64) => Arch::CoreExpansionLinux64,
            (Version::SpaceAge, Platform::Mac) => Arch::CoreExpansionMac,
            (Version::SpaceAge, Platform::Win64) => Arch::CoreExpansionWin64,
        }
    }
}

impl vstd::std_specs::convert::FromSpecImpl<(Version, Platform)> for Arch {
    open spec fn obeys_from_spec() -> bool {
        true
    }

    open spec fn from_spec(pair: (Version, Platform)) -> Arch {
        arch_of(pair.0, pair.1)
    }
}

/// A published patch from one exact version to another.
#[derive(Debug, Clone, PartialEq, Eq)]
pub struct VersionDiff {
    pub from: String,
    pub to: String,
}

impl VersionDiff {
    /// The patch as a pair of version strings.
    pub open spec fn pair(self) -> (Seq<char>, Seq<char>) {
        (self.from@, self.to@)
    }
}

/// The feed's declaration of the current stable version of a channel.
#[derive(Debug, Clone, PartialEq, Eq)]
pub struct Stable {
    pub stable: String,
}

/// One entry of a channel's list in the release feed.
#[derive(Debug, Clone, PartialEq, Eq)]
pub enum Item {
    VersionDiff(VersionDiff),
    Stable(Stable),
}

/// The release feed: for each channel, its list of entries. A channel that
/// appears twice is read at its first appearance.
#[derive(Debug, Clone, PartialEq, Eq)]
pub struct Updates {
    channels: Vec<(Arch, Vec<Item>)>,
}

/// The entries of `arch` in a list of channels, from its first appearance.
pub open spec fn lookup_channel(channels: Seq<(Arch, Vec<Item>)>, arch: Arch) -> Option<Seq<Item>>
    decreases channels.len(),
{
    if channels.len() == 0 {
        None
    } else if channels[0].0 == arch {
        Some(channels[0].1@)
    } else {
        lookup_channel(channels.drop_first(), arch)
    }
}

proof fn lemma_lookup_skip(channels: Seq<(Arch, Vec<Item>)>, i: int, arch: Arch)
    requires
        0 <= i < channels.len(),
        channels[i].0 != arch,
    ensures
        lookup_channel(channels.subrange(i, channels.len() as int), arch) == lookup_channel(
            channels.subrange(i + 1, channels.len() as int),
            arch,
        ),
{
    assert(channels.subrange(i, channels.len() as int).drop_first() =~= channels.subrange(
        i + 1,
        channels.len() as int,
    ));
}

proof fn lemma_lookup_at(channels: Seq<(Arch, Vec<Item>)>, i: int, arch: Arch)
    requires
        0 <= i < channels.len(),
        channels[i].0 == arch,
        forall|j: int| 0 <= j < i ==> (#[trigger] channels[j]).0 != arch,
    ensures
        lookup_channel(channels, arch) == Some(channels[i].1@),
    decreases i,
{
    if i > 0 {
        let rest = channels.drop_first();
        assert forall|j: int| 0 <= j < i - 1 implies (#[trigger] rest[j]).0 != arch by {
            assert(rest[j] == channels[j + 1]);
        }
        lemma_lookup_at(rest, i - 1, arch);
    }
}

proof fn lemma_lookup_same_keys(c1: Seq<(Arch, Vec<Item>)>, c2: Seq<(Arch, Vec<Item>)>, arch: Arch)
    requires
        c1.len() == c2.len(),
        forall|j: int| 0 <= j < c1.len() ==> (#[trigger] c1[j]).0 == c2[j].0,
        forall|j: int| 0 <= j < c1.len() && (#[trigger] c1[j]).0 == arch ==> c1[j].1@ == c2[j].1@,
    ensures
        lookup_channel(c1, arch) == lookup_channel(c2, arch),
    decreases c1.len(),
{
    if c1.len() > 0 {
        let (r1, r2) = (c1.drop_first(), c2.drop_first());
        assert forall|j: int| 0 <= j < r1.len() implies (#[trigger] r1[j]).0 == r2[j].0 by {
            assert(r1[j] == c1[j + 1] && r2[j] == c2[j + 1]);
        }
        assert forall|j: int| 0 <= j < r1.len() && (#[trigger] r1[j]).0 == arch implies r1[j].1@
            == r2[j].1@ by {
            assert(r1[j] == c1[j + 1] && r2[j] == c2[j + 1]);
        }
        assert(c1[0].0 == c2[0].0);
        lemma_lookup_same_keys(r1, r2, arch);
    }
}

proof fn lemma_lookup_push(c: Seq<(Arch, Vec<Item>)>, x: (Arch, Vec<Item>), arch: Arch)
    requires
        x.0 != arch,
    ensures
        lookup_channel(c.push(x), arch) == lookup_channel(c, arch),
    decreases c.len(),
{
    if c.len() == 0 {
        assert(c.push(x).drop_first() =~= c);
    } else {
        assert(c.push(x).drop_first() =~= c.drop_first().push(x));
        lemma_lookup_push(c.drop_first(), x, arch);
    }
}

impl Updates {
    /// The entries published for `arch`, if the feed has that channel.
    pub closed spec fn items_for(self, arch: Arch) -> Option<Seq<Item>> {
        lookup_channel(self.channels@, arch)
    }

    /// No channel is listed twice.
    pub closed spec fn wf(self) -> bool {
        forall|i: int, j: int|
            0 <= i < j < self.channels@.len() ==> (#[trigger] self.channels@[i]).0
                != (#[trigger] self.channels@[j]).0
    }

    /// A feed without channels.
    pub fn new() -> (r: Updates)
        ensures
            r.wf(),
            forall|a: Arch| r.items_for(a) is None,
    {
        Updates { channels: Vec::new() }
    }

    /// Where `arch` is listed.
    fn position(&self, arch: &Arch) -> (r: Option<usize>)
        ensures
            match r {
                Some(i) => i < self.channels@.len() && self.channels@[i as int].0 == *arch
                    && forall|j: int| 0 <= j < i ==> (#[trigger] self.channels@[j]).0 != *arch,
                None => forall|j: int|
                    0 <= j < self.channels@.len() ==> (#[trigger] self.channels@[j]).0 != *arch,
            },
    {
        let mut i: usize = 0;
        while i < self.channels.len()
            invariant
                i <= self.channels@.len(),
                forall|j: int| 0 <= j < i ==> (#[trigger] self.channels@[j]).0 != *arch,
            decreases self.channels@.len() - i,
        {
            if self.channels[i].0 == *arch {
                return Some(i);
            }
            i = i + 1;
        }
        None
    }

    /// Sets the entries of `arch`, replacing any it had.
    pub fn insert(&mut self, arch: Arch, items: Vec<Item>)
        requires
            old(self).wf(),
        ensures
            final(self).wf(),
            final(self).items_for(arch) == Some(items@),
            forall|a: Arch| a != arch ==> final(self).items_for(a) == old(self).items_for(a),
    {
        let ghost before = self.channels@;
        let ghost items_view = items@;
        match self.position(&arch) {
            Some(i) => {
                self.channels.set(i, (arch, items));
                proof {
                    let after = self.channels@;
                    lemma_lookup_at(after, i as int, arch);
                    assert forall|a: Arch| a != arch implies lookup_channel(after, a)
                        == lookup_channel(before, a) by {
                        lemma_lookup_same_keys(before, after, a);
                    }
                }
            },
            None => {
                self.channels.push((arch, items));
                proof {
                    let after = self.channels@;
                    assert(after[before.len() as int].0 == arch);
                    lemma_lookup_at(after, before.len() as int, arch);
                    assert forall|a: Arch| a != arch implies lookup_channel(after, a)
                        == lookup_channel(before, a) by {
                        lemma_lookup_push(before, (arch, items), a);
                    }
                }
            },
        }
    }

    /// The entries published for `arch`.
    pub fn get(&self, arch: &Arch) -> (r: Option<&Vec<Item>>)
        ensures
            match r {
                Some(items) => self.items_for(*arch) == Some(items@),
                None => self.items_for(*arch) is None,
            },
    {
        let n = self.channels.len();
        let mut i: usize = 0;
        assert(self.channels@.subrange(0, n as int) =~= self.channels@);
        while i < n
            invariant
                n == self.channels@.len(),
                0 <= i <= n,
                lookup_channel(self.channels@, *arch) == lookup_channel(
                    self.channels@.subrange(i as int, n as int),
                    *arch,
                ),
            decreases n - i,
        {
            if self.channels[i].0 == *arch {
                assert(self.channels@.subrange(i as int, n as int)[0] == self.channels@[i as int]);
                return Some(&self.channels[i].1);
            }
            proof {
                lemma_lookup_skip(self.channels@, i as int, *arch);
            }
            i = i + 1;
        }
        None
    }
}

/// The command-line options of an update run.
#[derive(Debug, Clone, PartialEq, Eq)]
pub struct Args {
    pub version: Version,
    pub platform: Platform,
    pub username: String,
    pub token: String,
    pub custom_folder: Option<String>,
}

/// What is recorded of the local installation: its channel and the version
/// installed there.
#[derive(Debug, Clone, PartialEq, Eq)]
pub struct Config {
    pub version: Version,
    pub platform: Platform,
    pub current_version: String,
}

} // verus!
