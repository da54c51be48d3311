//! Buckets: named top-level containers with their settings.
use vstd::prelude::*;
use super::CachePolicy;

verus! {

/// What can be configured on a bucket.
#[derive(Debug, Clone, Copy, PartialEq, Eq, Structural)]
pub struct BucketSettings {
    pub default_cache_policy: Option<CachePolicy>,
    pub access_logging: bool,
}

impl Default for BucketSettings {
    fn default() -> (r: BucketSettings)
        ensures
            r.default_cache_policy is None,
            !r.access_logging,
    {
        BucketSettings { default_cache_policy: None, access_logging: false }
    }
}

/// A bucket as contracts see it.
pub struct BucketView {
    pub uuid: u128,
    pub name: Seq<char>,
    pub settings: BucketSettings,
}

/// A bucket: its identifier and name never change, its settings may.
#[derive(Debug)]
pub struct Bucket {
    pub(crate) uuid: u128,
    pub(crate) name: String,
    pub(crate) settings: BucketSettings,
}

impl View for Bucket {
    type V = BucketView;

    closed spec fn view(&self) -> BucketView {
        BucketView { uuid: self.uuid, name: self.name@, settings: self.settings }
    }
}

impl Clone for Bucket {
    fn clone(&self) -> (r: Bucket)
        ensures
            r@ == self@,
    {
        Bucket { uuid: self.uuid, name: self.name.clone(), settings: self.settings }
    }
}

impl Bucket {
    /// A bucket record with the given identifier, name and settings.
    pub fn new(uuid: u128, name: String, settings: BucketSettings) -> (r: Bucket)
        ensures
            r@ == (BucketView { uuid, name: name@, settings }),
    {
        Bucket { uuid, name, settings }
    }

    /// Replaces the settings; identifier and name stay.
    pub fn set_settings(&mut self, settings: BucketSettings)
        ensures
            final(self)@ == (BucketView { settings, ..old(self)@ }),
    {
        self.settings = settings;
    }

    /// The bucket's name.
    pub fn name(&self) -> (r: &str)
        ensures
            r@ == self@.name,
    {
        self.name.as_str()
    }

    /// The bucket's identifier, as the 128 bits of its UUID.
    pub fn uuid(&self) -> (r: u128)
        ensures
            r == self@.uuid,
    {
        self.uuid
    }

    /// The bucket's settings.
    pub fn settings(&self) -> (r: &BucketSettings)
        ensures
            *r == self@.settings,
    {
        &self.settings
    }
}

/// A snapshot of a bucket for backup. It carries nothing yet.
#[derive(Debug, Clone, Copy, PartialEq, Eq, Structural)]
pub struct BucketBackup {}

} // verus!
