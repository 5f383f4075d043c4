use vstd::prelude::*;

verus! {

/// One destination of the catalog: a name, unique within the catalog, and
/// the target (a URL) that its surface shows.
#[derive(Clone, Debug)]
pub struct WebSite {
    pub name: String,
    pub url: String,
}

/// The catalog as it is read from the configuration source, not yet checked.
#[derive(Clone, Debug)]
pub struct WebSiteInfo {
    pub websites: Vec<WebSite>,
    pub default: String,
    pub slider: Option<u64>,
}

/// Why a configuration source could not become a catalog.
#[derive(Clone, Debug)]
pub enum ConfigError {
    NotFound,
    Malformed,
    DuplicateName(String),
    DefaultNotFound(String),
}

/// Entry `j` carries a name that an earlier entry already has.
pub open spec fn repeats_earlier(sites: Seq<WebSite>, j: int) -> bool {
    exists|i: int| 0 <= i < j && #[trigger] sites[i].name@ == sites[j].name@
}

/// Entry `j` is the first entry whose name repeats an earlier one.
pub open spec fn is_first_repeat(sites: Seq<WebSite>, j: int) -> bool {
    &&& 0 <= j < sites.len()
    &&& repeats_earlier(sites, j)
    &&& forall|k: int| 0 <= k < j ==> !#[trigger] repeats_earlier(sites, k)
}

/// All names are pairwise distinct.
pub open spec fn names_unique(sites: Seq<WebSite>) -> bool {
    forall|i: int, j: int|
        0 <= i < j < sites.len() ==> #[trigger] sites[i].name@ != #[trigger] sites[j].name@
}

/// Some entry carries the name `name`.
pub open spec fn has_name(sites: Seq<WebSite>, name: Seq<char>) -> bool {
    exists|i: int| 0 <= i < sites.len() && #[trigger] sites[i].name@ == name
}

/// The rotation interval, when there is one, is a positive number of seconds.
pub open spec fn interval_ok(slider: Option<u64>) -> bool {
    slider != Some(0u64)
}

/// `e` is the error that checking `info` reports: the first failing check, in
/// the order interval, names, default, decides it.
pub open spec fn rejected_with(info: WebSiteInfo, e: ConfigError) -> bool {
    match e {
        ConfigError::Malformed => !interval_ok(info.slider),
        ConfigError::DuplicateName(n) => interval_ok(info.slider) && exists|j: int|
            is_first_repeat(info.websites@, j) && n@ == #[trigger] info.websites@[j].name@,
        ConfigError::DefaultNotFound(n) => {
            &&& interval_ok(info.slider)
            &&& names_unique(info.websites@)
            &&& !has_name(info.websites@, info.default@)
            &&& n@ == info.default@
        },
        ConfigError::NotFound => false,
    }
}

impl WebSiteInfo {
    /// Unique names, a default that names an entry, and a positive interval.
    pub open spec fn is_valid(&self) -> bool {
        &&& interval_ok(self.slider)
        &&& names_unique(self.websites@)
        &&& has_name(self.websites@, self.default@)
    }

    /// Checks the catalog and returns the position of its default entry.
    pub fn default_position(&self) -> (r: Result<usize, ConfigError>)
        ensures
            self.is_valid() <==> r is Ok,
            match r {
                Ok(i) => i < self.websites@.len() && self.websites@[i as int].name@
                    == self.default@,
                Err(e) => rejected_with(*self, e),
            },
    {
        if let Some(t) = self.slider {
            if t == 0 {
                return Err(ConfigError::Malformed);
            }
        }
        let mut found: Option<usize> = None;
        let mut j: usize = 0;
        while j < self.websites.len()
            invariant
                j <= self.websites@.len(),
                interval_ok(self.slider),
                forall|k: int| 0 <= k < j ==> !#[trigger] repeats_earlier(self.websites@, k),
                match found {
                    Some(i) => i < j && self.websites@[i as int].name@ == self.default@,
                    None => forall|i: int| 0 <= i < j ==> #[trigger] self.websites@[i].name@ != self.default@,
                },
            decreases self.websites@.len() - j,
        {
            let mut i: usize = 0;
            while i < j
                invariant
                    i <= j < self.websites@.len(),
                    interval_ok(self.slider),
                    forall|k: int| 0 <= k < j ==> !#[trigger] repeats_earlier(self.websites@, k),
                    forall|k: int| 0 <= k < i ==> #[trigger] self.websites@[k].name@ != self.websites@[j as int].name@,
                decreases j - i,
            {
                if self.websites[i].name == self.websites[j].name {
                    let name = self.websites[j].name.clone();
                    assert(repeats_earlier(self.websites@, j as int));
                    assert(is_first_repeat(self.websites@, j as int) && name@
                        == self.websites@[j as int].name@);
                    assert(!names_unique(self.websites@)) by {
                        assert(self.websites@[i as int].name@ == self.websites@[j as int].name@);
                    }
                    return Err(ConfigError::DuplicateName(name));
                }
                i += 1;
            }
            if found.is_none() && self.websites[j].name == self.default {
                found = Some(j);
            }
            j += 1;
        }
        assert(names_unique(self.websites@)) by {
            assert forall|a: int, b: int| 0 <= a < b < self.websites@.len() implies
                #[trigger] self.websites@[a].name@ != #[trigger] self.websites@[b].name@ by {
                if self.websites@[a].name@ == self.websites@[b].name@ {
                    assert(repeats_earlier(self.websites@, b));
                }
            }
        }
        match found {
            Some(i) => Ok(i),
            None => Err(ConfigError::DefaultNotFound(self.default.clone())),
        }
    }
}

/// A checked catalog: unique names, a default that names an entry, and a
/// positive rotation interval if there is one. It never changes once loaded.
pub struct Catalog {
    info: WebSiteInfo,
    default_index: usize,
}

impl Catalog {
    #[verifier::type_invariant]
    spec fn inv(self) -> bool {
        &&& self.info.is_valid()
        &&& self.default_index < self.info.websites@.len()
        &&& self.info.websites@[self.default_index as int].name@ == self.info.default@
    }

    /// The catalog as it was read.
    pub closed spec fn info(self) -> WebSiteInfo {
        self.info
    }

    /// The position of the default entry.
    pub closed spec fn default_entry(self) -> nat {
        self.default_index as nat
    }

    /// Checks `info`; on success the catalog holds it unchanged, and its
    /// default index is the position of the entry named by `info.default`.
    pub fn load(info: WebSiteInfo) -> (r: Result<Catalog, ConfigError>)
        ensures
            info.is_valid() <==> r is Ok,
            match r {
                Ok(c) => {
                    &&& c.info() == info
                    &&& c.default_entry() < info.websites@.len()
                    &&& info.websites@[c.default_entry() as int].name@ == info.default@
                },
                Err(e) => rejected_with(info, e),
            },
            interval_ok(info.slider) && !names_unique(info.websites@) ==> (r matches Err(
                ConfigError::DuplicateName(n),
            ) && exists|j: int|
                is_first_repeat(info.websites@, j) && n@ == #[trigger] info.websites@[j].name@),
            interval_ok(info.slider) && names_unique(info.websites@) && !has_name(
                info.websites@,
                info.default@,
            ) ==> (r matches Err(ConfigError::DefaultNotFound(n)) && n@ == info.default@),
    {
        match info.default_position() {
            Ok(i) => Ok(Catalog { info, default_index: i }),
            Err(e) => Err(e),
        }
    }

    /// The entries, in catalog order.
    pub fn entries(&self) -> (r: &Vec<WebSite>)
        ensures
            r@ == self.info().websites@,
    {
        &self.info.websites
    }

    /// The number of entries; a loaded catalog has at least one.
    pub fn len(&self) -> (r: usize)
        ensures
            r == self.info().websites@.len(),
            r > 0,
    {
        proof {
            use_type_invariant(self);
        }
        self.info.websites.len()
    }

    /// The position of the default entry.
    pub fn default_index(&self) -> (r: usize)
        ensures
            r == self.default_entry(),
            r < self.info().websites@.len(),
            self.info().websites@[r as int].name@ == self.info().default@,
    {
        proof {
            use_type_invariant(self);
        }
        self.default_index
    }

    /// The rotation interval in seconds, if rotation is configured.
    pub fn interval_secs(&self) -> (r: Option<u64>)
        ensures
            r == self.info().slider,
            r != Some(0u64),
    {
        proof {
            use_type_invariant(self);
        }
        self.info.slider
    }
}

} // verus!
