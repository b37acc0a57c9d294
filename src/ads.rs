//! The ad gate's bookkeeping: which ads were requested and how far each got,
//! and the events logged on the way. The caller supplies what only the
//! outside world knows: whether the user is premium, the time, and a random
//! number for the ad id.
use vstd::prelude::*;
use crate::monetization::{AdConfig, AdError, AdEventType, AdRequest};
use crate::text::{chars_eq, chars_of, decimal, push_decimal, push_str_chars, string_of};

verus! {

/// An ad that was requested, with the times (seconds since the Unix epoch)
/// at which it was requested, began playing and completed.
#[derive(Debug)]
pub struct ActiveAd {
    pub ad_id: String,
    pub requested_at: u64,
    pub completed: bool,
    pub load_start_time: Option<u64>,
    pub completion_time: Option<u64>,
}

/// One logged event of an ad.
#[derive(Debug)]
pub struct AdEvent {
    pub event_type: AdEventType,
    pub ad_id: Option<String>,
    pub timestamp: u64,
    pub error: Option<String>,
}

/// A logged event as plain values.
pub open spec fn event_view(e: AdEvent) -> (AdEventType, Option<Seq<char>>, u64, Option<Seq<char>>) {
    (
        e.event_type,
        match e.ad_id {
            Some(s) => Some(s@),
            None => None,
        },
        e.timestamp,
        match e.error {
            Some(s) => Some(s@),
            None => None,
        },
    )
}

pub open spec fn events_view(v: Seq<AdEvent>) -> Seq<(AdEventType, Option<Seq<char>>, u64, Option<Seq<char>>)> {
    v.map_values(|e: AdEvent| event_view(e))
}

/// An ad as plain values: id, requested, completed, started, completion.
pub open spec fn ad_view(a: ActiveAd) -> (Seq<char>, u64, bool, Option<u64>, Option<u64>) {
    (a.ad_id@, a.requested_at, a.completed, a.load_start_time, a.completion_time)
}

pub open spec fn ads_view(v: Seq<ActiveAd>) -> Seq<(Seq<char>, u64, bool, Option<u64>, Option<u64>)> {
    v.map_values(|a: ActiveAd| ad_view(a))
}

/// The position of the first ad with id `id`, or -1.
pub open spec fn ad_index(ads: Seq<(Seq<char>, u64, bool, Option<u64>, Option<u64>)>, id: Seq<char>) -> int
    decreases ads.len(),
{
    if ads.len() == 0 {
        -1
    } else if ad_index(ads.drop_last(), id) >= 0 {
        ad_index(ads.drop_last(), id)
    } else if ads.last().0 == id {
        ads.len() - 1
    } else {
        -1
    }
}

/// The id of an ad requested at `now` with the random number `nonce`.
pub open spec fn ad_id_text(now: nat, nonce: nat) -> Seq<char> {
    "ad_"@ + decimal(now) + "_"@ + decimal(nonce)
}

/// The ads requested so far and the events logged.
pub struct AdManager {
    config: AdConfig,
    active_ads: Vec<ActiveAd>,
    events: Vec<AdEvent>,
}

impl AdManager {
    pub closed spec fn settings(&self) -> AdConfig {
        self.config
    }

    /// The requested ads, in the order of their requests.
    pub closed spec fn ads(&self) -> Seq<(Seq<char>, u64, bool, Option<u64>, Option<u64>)> {
        ads_view(self.active_ads@)
    }

    /// The events logged, oldest first.
    pub closed spec fn log(&self) -> Seq<(AdEventType, Option<Seq<char>>, u64, Option<Seq<char>>)> {
        events_view(self.events@)
    }

    /// A manager with no ad requested.
    pub fn new(config: AdConfig) -> (r: AdManager)
        ensures
            r.settings() == config,
            r.ads().len() == 0,
            r.log().len() == 0,
    {
        let r = AdManager { config, active_ads: Vec::new(), events: Vec::new() };
        assert(r.ads() =~= Seq::empty());
        assert(r.log() =~= Seq::empty());
        r
    }

    /// The requested ads.
    pub fn active_ads(&self) -> (r: &Vec<ActiveAd>)
        ensures
            ads_view(r@) == self.ads(),
    {
        &self.active_ads
    }

    /// The events logged, oldest first.
    pub fn events(&self) -> (r: &Vec<AdEvent>)
        ensures
            events_view(r@) == self.log(),
    {
        &self.events
    }

    /// The manager's settings.
    pub fn config(&self) -> (r: &AdConfig)
        ensures
            *r == self.settings(),
    {
        &self.config
    }

    fn log_event(&mut self, event_type: AdEventType, ad_id: Option<String>, now: u64, error: Option<String>)
        ensures
            final(self).config == old(self).config,
            final(self).active_ads@ == old(self).active_ads@,
            final(self).log() == old(self).log().push(
                (
                    event_type,
                    match ad_id {
                        Some(s) => Some(s@),
                        None => None,
                    },
                    now,
                    match error {
                        Some(s) => Some(s@),
                        None => None,
                    },
                ),
            ),
    {
        let e = AdEvent { event_type, ad_id, timestamp: now, error };
        let ghost ev = event_view(e);
        let ghost before = self.log();
        self.events.push(e);
        assert(self.log() =~= before.push(ev));
    }

    /// Asks for an ad at time `now`, with `nonce` drawn at random for its id.
    /// A premium user needs none: that is logged as skipped and refused.
    /// Otherwise the ad is tracked, its request logged, and the request
    /// returned with the manager's publisher, unit and duration.
    pub fn request_ad(&mut self, is_premium: bool, now: u64, nonce: u32) -> (r: Result<AdRequest, AdError>)
        ensures
            final(self).settings() == old(self).settings(),
            is_premium ==> (r matches Err(AdError::NotRequired) && final(self).ads() == old(self).ads()
                && final(self).log() == old(self).log().push((AdEventType::Skipped, None, now, None))),
            !is_premium ==> (r matches Ok(req) && req.ad_id@ == ad_id_text(now as nat, nonce as nat)
                && req.provider@ == "adsense"@ && req.format@ == "rewarded_video"@
                && req.publisher_id@ == old(self).settings().publisher_id@
                && req.ad_unit_id@ == old(self).settings().ad_unit_id@
                && req.duration_seconds == old(self).settings().duration_seconds
                && final(self).ads() == old(self).ads().push(
                (ad_id_text(now as nat, nonce as nat), now, false, None, None),
            ) && final(self).log() == old(self).log().push(
                (AdEventType::Requested, Some(ad_id_text(now as nat, nonce as nat)), now, None),
            )),
    {
        if is_premium {
            self.log_event(AdEventType::Skipped, None, now, None);
            return Err(AdError::NotRequired);
        }
        let mut t: Vec<char> = Vec::new();
        push_str_chars(&mut t, "ad_");
        push_decimal(&mut t, now);
        push_str_chars(&mut t, "_");
        push_decimal(&mut t, nonce as u64);
        let ad_id = string_of(&t);
        let request = AdRequest {
            ad_id: ad_id.clone(),
            provider: "adsense".to_owned(),
            publisher_id: self.config.publisher_id.clone(),
            ad_unit_id: self.config.ad_unit_id.clone(),
            duration_seconds: self.config.duration_seconds,
            format: "rewarded_video".to_owned(),
        };
        let ad = ActiveAd {
            ad_id: ad_id.clone(),
            requested_at: now,
            completed: false,
            load_start_time: None,
            completion_time: None,
        };
        let ghost before = self.ads();
        let ghost av = ad_view(ad);
        self.active_ads.push(ad);
        assert(self.ads() =~= before.push(av));
        self.log_event(AdEventType::Requested, Some(ad_id), now, None);
        Ok(request)
    }

    /// The position of the first ad with id `id`.
    fn find_ad(&self, id: &str) -> (r: Option<usize>)
        ensures
            r is None ==> ad_index(self.ads(), id@) == -1,
            r matches Some(k) ==> ad_index(self.ads(), id@) == k && k < self.active_ads@.len(),
    {
        let ghost av = self.ads();
        let idc = chars_of(id);
        let mut k: usize = 0;
        assert(av.subrange(0, 0).len() == 0);
        while k < self.active_ads.len()
            invariant
                idc@ == id@,
                k <= self.active_ads@.len(),
                av == ads_view(self.active_ads@),
                ad_index(av.subrange(0, k as int), id@) == -1,
            decreases self.active_ads@.len() - k,
        {
            let ghost sub = av.subrange(0, k + 1);
            assert(sub.drop_last() =~= av.subrange(0, k as int));
            assert(sub.last() == ad_view(self.active_ads@[k as int]));
            let a = chars_of(self.active_ads[k].ad_id.as_str());
            if chars_eq(&a, &idc) {
                proof {
                    lemma_ad_index_prefix(av, id@, k as int);
                }
                return Some(k);
            }
            k = k + 1;
        }
        assert(av.subrange(0, av.len() as int) =~= av);
        None
    }

    /// The ad `id` started playing at `now`; an error where no such ad was requested.
    pub fn mark_ad_started(&mut self, id: &str, now: u64) -> (r: Result<(), AdError>)
        ensures
            final(self).settings() == old(self).settings(),
            ad_index(old(self).ads(), id@) == -1 ==> (r matches Err(AdError::AdNotFound(m)) && m@ == id@
                && final(self).ads() == old(self).ads() && final(self).log() == old(self).log()),
            ad_index(old(self).ads(), id@) >= 0 ==> r is Ok && final(self).ads() == old(self).ads().update(
                ad_index(old(self).ads(), id@),
                ({
                    let a = old(self).ads()[ad_index(old(self).ads(), id@)];
                    (a.0, a.1, a.2, Some(now), a.4)
                }),
            ) && final(self).log() == old(self).log().push(
                (AdEventType::Started, Some(id@), now, None),
            ),
    {
        match self.find_ad(id) {
            None => Err(AdError::AdNotFound(id.to_owned())),
            Some(k) => {
                let ghost before = self.ads();
                let old_ad = &self.active_ads[k];
                let updated = ActiveAd {
                    ad_id: old_ad.ad_id.clone(),
                    requested_at: old_ad.requested_at,
                    completed: old_ad.completed,
                    load_start_time: Some(now),
                    completion_time: old_ad.completion_time,
                };
                let ghost uv = ad_view(updated);
                self.active_ads.set(k, updated);
                assert(self.ads() =~= before.update(k as int, uv));
                self.log_event(AdEventType::Started, Some(id.to_owned()), now, None);
                Ok(())
            },
        }
    }

    /// The ad `id` completed at `now`; an error where no such ad was requested.
    pub fn mark_ad_completed(&mut self, id: &str, now: u64) -> (r: Result<(), AdError>)
        ensures
            final(self).settings() == old(self).settings(),
            ad_index(old(self).ads(), id@) == -1 ==> (r matches Err(AdError::AdNotFound(m)) && m@ == id@
                && final(self).ads() == old(self).ads() && final(self).log() == old(self).log()),
            ad_index(old(self).ads(), id@) >= 0 ==> r is Ok && final(self).ads() == old(self).ads().update(
                ad_index(old(self).ads(), id@),
                ({
                    let a = old(self).ads()[ad_index(old(self).ads(), id@)];
                    (a.0, a.1, true, a.3, Some(now))
                }),
            ) && final(self).log() == old(self).log().push(
                (AdEventType::Completed, Some(id@), now, None),
            ),
    {
        match self.find_ad(id) {
            None => Err(AdError::AdNotFound(id.to_owned())),
            Some(k) => {
                let ghost before = self.ads();
                let old_ad = &self.active_ads[k];
                let updated = ActiveAd {
                    ad_id: old_ad.ad_id.clone(),
                    requested_at: old_ad.requested_at,
                    completed: true,
                    load_start_time: old_ad.load_start_time,
                    completion_time: Some(now),
                };
                let ghost uv = ad_view(updated);
                self.active_ads.set(k, updated);
                assert(self.ads() =~= before.update(k as int, uv));
                self.log_event(AdEventType::Completed, Some(id.to_owned()), now, None);
                Ok(())
            },
        }
    }

    /// The ad `id` loaded at `now`; an error where no such ad was requested.
    pub fn mark_ad_loaded(&mut self, id: &str, now: u64) -> (r: Result<(), AdError>)
        ensures
            final(self).settings() == old(self).settings(),
            final(self).ads() == old(self).ads(),
            ad_index(old(self).ads(), id@) == -1 ==> (r matches Err(AdError::AdNotFound(m)) && m@ == id@
                && final(self).log() == old(self).log()),
            ad_index(old(self).ads(), id@) >= 0 ==> r is Ok && final(self).log() == old(self).log().push(
                (AdEventType::Loaded, Some(id@), now, None),
            ),
    {
        match self.find_ad(id) {
            None => Err(AdError::AdNotFound(id.to_owned())),
            Some(_) => {
                self.log_event(AdEventType::Loaded, Some(id.to_owned()), now, None);
                Ok(())
            },
        }
    }

    /// The ad `id` failed to load at `now` with `error`; an error where no
    /// such ad was requested.
    pub fn mark_ad_failed(&mut self, id: &str, error: String, now: u64) -> (r: Result<(), AdError>)
        ensures
            final(self).settings() == old(self).settings(),
            final(self).ads() == old(self).ads(),
            ad_index(old(self).ads(), id@) == -1 ==> (r matches Err(AdError::AdNotFound(m)) && m@ == id@
                && final(self).log() == old(self).log()),
            ad_index(old(self).ads(), id@) >= 0 ==> r is Ok && final(self).log() == old(self).log().push(
                (AdEventType::LoadFailed, Some(id@), now, Some(error@)),
            ),
    {
        match self.find_ad(id) {
            None => Err(AdError::AdNotFound(id.to_owned())),
            Some(_) => {
                self.log_event(AdEventType::LoadFailed, Some(id.to_owned()), now, Some(error));
                Ok(())
            },
        }
    }

    /// Whether the ad `id` has completed; an error where no such ad was
    /// requested. Waiting for completion polls this.
    pub fn ad_completed(&self, id: &str) -> (r: Result<bool, AdError>)
        ensures
            ad_index(self.ads(), id@) == -1 ==> (r matches Err(AdError::AdNotFound(m)) && m@ == id@),
            ad_index(self.ads(), id@) >= 0 ==> r == Ok::<bool, AdError>(
                self.ads()[ad_index(self.ads(), id@)].2,
            ),
    {
        match self.find_ad(id) {
            None => Err(AdError::AdNotFound(id.to_owned())),
            Some(k) => Ok(self.active_ads[k].completed),
        }
    }
}

proof fn lemma_ad_index_prefix(
    av: Seq<(Seq<char>, u64, bool, Option<u64>, Option<u64>)>,
    id: Seq<char>,
    k: int,
)
    requires
        0 <= k < av.len(),
        ad_index(av.subrange(0, k), id) == -1,
        av[k].0 == id,
    ensures
        ad_index(av, id) == k,
    decreases av.len() - k,
{
    if k == av.len() - 1 {
        assert(av.drop_last() =~= av.subrange(0, k));
    } else {
        assert(av.drop_last().subrange(0, k) =~= av.subrange(0, k));
        assert(av.drop_last()[k] == av[k]);
        lemma_ad_index_prefix(av.drop_last(), id, k);
    }
}

} // verus!
