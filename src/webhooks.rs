//! Saved chat webhooks.
use vstd::prelude::*;
use vstd::string::StringExecFns;
use crate::clock::unix_now;

verus! {

broadcast use vstd::seq_lib::group_seq_properties, vstd::seq_lib::group_to_multiset_ensures;

#[derive(Debug, Clone)]
pub struct SavedWebhook {
    pub name: String,
    pub url: String,
    pub created: u64,
    pub last_used: u64,
}

/// A saved webhook as plain values.
pub ghost struct WebhookModel {
    pub name: Seq<char>,
    pub url: Seq<char>,
    pub created: u64,
    pub last_used: u64,
}

impl View for SavedWebhook {
    type V = WebhookModel;

    open spec fn view(&self) -> WebhookModel {
        WebhookModel { name: self.name@, url: self.url@, created: self.created, last_used: self.last_used }
    }
}

#[derive(Debug, Clone)]
pub struct WebhookSettings {
    pub saved_webhooks: Vec<SavedWebhook>,
    pub remember_last_webhook: bool,
    pub last_webhook_url: String,
}

pub open spec fn hook_views(v: Seq<SavedWebhook>) -> Seq<WebhookModel> {
    v.map_values(|w: SavedWebhook| w@)
}

pub open spec fn has_url(s: Seq<WebhookModel>, url: Seq<char>) -> bool {
    exists|i: int| 0 <= i < s.len() && (#[trigger] s[i]).url == url
}

pub open spec fn has_name(s: Seq<WebhookModel>, name: Seq<char>) -> bool {
    exists|i: int| 0 <= i < s.len() && (#[trigger] s[i]).name == name
}

/// Index of the first webhook with `url`, or the length if none has it.
pub open spec fn first_with_url(s: Seq<WebhookModel>, url: Seq<char>, i: int) -> int
    decreases s.len() - i,
{
    if i < 0 || i >= s.len() {
        s.len() as int
    } else if s[i].url == url {
        i
    } else {
        first_with_url(s, url, i + 1)
    }
}

/// A webhook saved at `now`.
pub open spec fn fresh_hook(name: Seq<char>, url: Seq<char>, now: u64) -> WebhookModel {
    WebhookModel { name, url, created: now, last_used: now }
}

/// `w` last used at `now`.
pub open spec fn used_at(w: WebhookModel, now: u64) -> WebhookModel {
    WebhookModel { last_used: now, ..w }
}

/// Index of the first webhook at or after `i` used before `t`, or the length.
pub open spec fn first_used_before(s: Seq<WebhookModel>, t: u64, i: int) -> int
    decreases s.len() - i,
{
    if i < 0 || i >= s.len() {
        s.len() as int
    } else if s[i].last_used < t {
        i
    } else {
        first_used_before(s, t, i + 1)
    }
}

/// The webhooks ordered most recently used first, those used at the same time
/// in their saved order: each is placed after every earlier one used no earlier.
pub open spec fn by_use(s: Seq<WebhookModel>) -> Seq<WebhookModel>
    decreases s.len(),
{
    if s.len() == 0 {
        s
    } else {
        let r = by_use(s.drop_last());
        r.insert(first_used_before(r, s.last().last_used, 0), s.last())
    }
}

/// Most recently used first.
pub open spec fn sorted_by_use(s: Seq<WebhookModel>) -> bool {
    forall|i: int, j: int| 0 <= i < j < s.len() ==> s[i].last_used >= s[j].last_used
}

fn copy_webhook(w: &SavedWebhook) -> (r: SavedWebhook)
    ensures
        r@ == w@,
{
    SavedWebhook { name: w.name.clone(), url: w.url.clone(), created: w.created, last_used: w.last_used }
}

impl WebhookSettings {
    pub open spec fn hooks(&self) -> Seq<WebhookModel> {
        hook_views(self.saved_webhooks@)
    }

    pub fn new() -> (r: WebhookSettings)
        ensures
            r.hooks() == Seq::<WebhookModel>::empty(),
            !r.remember_last_webhook,
            r.last_webhook_url@ == Seq::<char>::empty(),
    {
        let r = WebhookSettings {
            saved_webhooks: Vec::new(),
            remember_last_webhook: false,
            last_webhook_url: String::new(),
        };
        assert(r.hooks() =~= Seq::<WebhookModel>::empty());
        r
    }

    /// Resets to no saved webhooks and nothing remembered.
    pub fn init(&mut self)
        ensures
            final(self).hooks() == Seq::<WebhookModel>::empty(),
            !final(self).remember_last_webhook,
            final(self).last_webhook_url@ == Seq::<char>::empty(),
    {
        self.saved_webhooks = Vec::new();
        self.remember_last_webhook = false;
        self.last_webhook_url = String::new();
        assert(self.hooks() =~= Seq::<WebhookModel>::empty());
    }

    fn url_saved(&self, url: &String) -> (r: bool)
        ensures
            r == has_url(self.hooks(), url@),
    {
        let n = self.saved_webhooks.len();
        let mut i: usize = 0;
        while i < n
            invariant
                n == self.hooks().len(),
                i <= n,
                forall|j: int| 0 <= j < i ==> self.hooks()[j].url != url@,
            decreases n - i,
        {
            if self.saved_webhooks[i].url == *url {
                assert(self.hooks()[i as int].url == url@);
                return true;
            }
            i = i + 1;
        }
        false
    }

    fn name_saved(&self, name: &String) -> (r: bool)
        ensures
            r == has_name(self.hooks(), name@),
    {
        let n = self.saved_webhooks.len();
        let mut i: usize = 0;
        while i < n
            invariant
                n == self.hooks().len(),
                i <= n,
                forall|j: int| 0 <= j < i ==> self.hooks()[j].name != name@,
            decreases n - i,
        {
            if self.saved_webhooks[i].name == *name {
                assert(self.hooks()[i as int].name == name@);
                return true;
            }
            i = i + 1;
        }
        false
    }

    /// Saves a webhook created and last used at `now`. A URL or a name that is
    /// saved already is refused, the URL checked first.
    pub fn add_webhook_at(&mut self, name: String, url: String, now: u64) -> (r: Result<(), String>)
        ensures
            has_url(old(self).hooks(), url@) ==> (r matches Err(e) && e@ == "This webhook URL is already saved"@),
            !has_url(old(self).hooks(), url@) && has_name(old(self).hooks(), name@) ==> (r matches Err(e)
                && e@ == "A webhook with this name already exists"@),
            r is Err ==> final(self).hooks() == old(self).hooks(),
            r is Ok <==> !has_url(old(self).hooks(), url@) && !has_name(old(self).hooks(), name@),
            r is Ok ==> final(self).hooks() == old(self).hooks().push(
                fresh_hook(name@, url@, now),
            ),
            final(self).remember_last_webhook == old(self).remember_last_webhook,
            final(self).last_webhook_url@ == old(self).last_webhook_url@,
    {
        if self.url_saved(&url) {
            return Err(String::from_str("This webhook URL is already saved"));
        }
        if self.name_saved(&name) {
            return Err(String::from_str("A webhook with this name already exists"));
        }
        let w = SavedWebhook { name, url, created: now, last_used: now };
        self.saved_webhooks.push(w);
        assert(self.hooks() =~= old(self).hooks().push(w@));
        Ok(())
    }

    /// Saves a webhook stamped with the current time; see `add_webhook_at`.
    pub fn add_webhook(&mut self, name: String, url: String) -> (r: Result<(), String>)
        ensures
            has_url(old(self).hooks(), url@) ==> (r matches Err(e) && e@ == "This webhook URL is already saved"@),
            !has_url(old(self).hooks(), url@) && has_name(old(self).hooks(), name@) ==> (r matches Err(e)
                && e@ == "A webhook with this name already exists"@),
            r is Err ==> final(self).hooks() == old(self).hooks(),
            r is Ok <==> !has_url(old(self).hooks(), url@) && !has_name(old(self).hooks(), name@),
            r is Ok ==> exists|now: u64| final(self).hooks() == old(self).hooks().push(
                #[trigger] fresh_hook(name@, url@, now),
            ),
            final(self).remember_last_webhook == old(self).remember_last_webhook,
            final(self).last_webhook_url@ == old(self).last_webhook_url@,
    {
        let now = unix_now();
        self.add_webhook_at(name, url, now)
    }

    /// Deletes every webhook called `name`; says whether one was.
    pub fn delete_webhook(&mut self, name: &str) -> (r: bool)
        ensures
            final(self).hooks() == old(self).hooks().filter(|w: WebhookModel| w.name != name@),
            r == has_name(old(self).hooks(), name@),
            final(self).remember_last_webhook == old(self).remember_last_webhook,
            final(self).last_webhook_url@ == old(self).last_webhook_url@,
    {
        let ghost pred = |w: WebhookModel| w.name != name@;
        let ghost all = self.hooks();
        let n = self.saved_webhooks.len();
        let mut kept: Vec<SavedWebhook> = Vec::new();
        let mut i: usize = 0;
        proof {
            reveal(Seq::filter);
        }
        assert(all.subrange(0, 0).filter(pred) =~= Seq::<WebhookModel>::empty());
        while i < n
            invariant
                n == all.len(),
                all == self.hooks(),
                pred == (|w: WebhookModel| w.name != name@),
                i <= n,
                hook_views(kept@) == all.subrange(0, i as int).filter(pred),
                kept@.len() < i || (kept@.len() == i && forall|j: int| 0 <= j < i ==> all[j].name != name@),
                kept@.len() <= i,
            decreases n - i,
        {
            let ghost sub = all.subrange(0, i + 1);
            assert(sub.drop_last() =~= all.subrange(0, i as int));
            assert(sub.last() == all[i as int]);
            proof {
                reveal(Seq::filter);
            }
            assert(all[i as int] == self.saved_webhooks@[i as int]@);
            let same = crate::text::str_eq(self.saved_webhooks[i].name.as_str(), name);
            if !same {
                let w = copy_webhook(&self.saved_webhooks[i]);
                kept.push(w);
                assert(hook_views(kept@) =~= sub.filter(pred));
            } else {
                assert(sub.filter(pred) == all.subrange(0, i as int).filter(pred));
            }
            i = i + 1;
        }
        assert(all.subrange(0, n as int) =~= all);
        let removed = kept.len() < n;
        proof {
            if !removed {
                assert(!has_name(all, name@));
            } else {
                all.lemma_filter_len(pred);
                if !has_name(all, name@) {
                    assert forall|j: int| 0 <= j < all.len() implies pred(all[j]) by {}
                    all.lemma_all_neg_filter_empty(|w: WebhookModel| !pred(w));
                    lemma_filter_all(all, pred);
                }
            }
        }
        self.saved_webhooks = kept;
        removed
    }

    /// Marks the first webhook with `url` as used at `now`.
    pub fn update_webhook_usage_at(&mut self, url: &str, now: u64)
        ensures
            ({
                let k = first_with_url(old(self).hooks(), url@, 0);
                if k < old(self).hooks().len() {
                    final(self).hooks() == old(self).hooks().update(
                        k,
                        used_at(old(self).hooks()[k], now),
                    )
                } else {
                    final(self).hooks() == old(self).hooks()
                }
            }),
            final(self).remember_last_webhook == old(self).remember_last_webhook,
            final(self).last_webhook_url@ == old(self).last_webhook_url@,
    {
        let n = self.saved_webhooks.len();
        let mut i: usize = 0;
        while i < n
            invariant
                n == self.hooks().len(),
                self.hooks() == old(self).hooks(),
                self.remember_last_webhook == old(self).remember_last_webhook,
                self.last_webhook_url@ == old(self).last_webhook_url@,
                i <= n,
                first_with_url(self.hooks(), url@, i as int) == first_with_url(self.hooks(), url@, 0),
            decreases n - i,
        {
            assert(self.hooks()[i as int] == self.saved_webhooks@[i as int]@);
            if crate::text::str_eq(self.saved_webhooks[i].url.as_str(), url) {
                let mut w = copy_webhook(&self.saved_webhooks[i]);
                w.last_used = now;
                self.saved_webhooks.set(i, w);
                assert(self.hooks() =~= old(self).hooks().update(
                    i as int,
                    used_at(old(self).hooks()[i as int], now),
                ));
                return;
            }
            i = i + 1;
        }
    }

    /// Marks the first webhook with `url` as used now.
    pub fn update_webhook_usage(&mut self, url: &str)
        ensures
            ({
                let k = first_with_url(old(self).hooks(), url@, 0);
                if k < old(self).hooks().len() {
                    exists|now: u64| final(self).hooks() == old(self).hooks().update(
                        k,
                        #[trigger] used_at(old(self).hooks()[k], now),
                    )
                } else {
                    final(self).hooks() == old(self).hooks()
                }
            }),
            final(self).remember_last_webhook == old(self).remember_last_webhook,
            final(self).last_webhook_url@ == old(self).last_webhook_url@,
    {
        let now = unix_now();
        self.update_webhook_usage_at(url, now);
        proof {
            let k = first_with_url(old(self).hooks(), url@, 0);
            if k < old(self).hooks().len() {
                assert(final(self).hooks() == old(self).hooks().update(k, used_at(old(self).hooks()[k], now)));
            }
        }
    }

    /// The saved webhooks, most recently used first; webhooks used at the same
    /// time keep their saved order.
    pub fn get_webhooks_sorted(&self) -> (r: Vec<SavedWebhook>)
        ensures
            hook_views(r@) == by_use(self.hooks()),
            sorted_by_use(hook_views(r@)),
            hook_views(r@).to_multiset() == self.hooks().to_multiset(),
    {
        let n = self.saved_webhooks.len();
        let mut out: Vec<SavedWebhook> = Vec::new();
        let mut i: usize = 0;
        assert(self.hooks().subrange(0, 0) =~= Seq::<WebhookModel>::empty());
        assert(hook_views(out@) =~= Seq::<WebhookModel>::empty());
        while i < n
            invariant
                n == self.hooks().len(),
                i <= n,
                out@.len() == i,
                hook_views(out@) == by_use(self.hooks().subrange(0, i as int)),
                sorted_by_use(hook_views(out@)),
                hook_views(out@).to_multiset() == self.hooks().subrange(0, i as int).to_multiset(),
            decreases n - i,
        {
            let w = copy_webhook(&self.saved_webhooks[i]);
            assert(w@ == self.hooks()[i as int]);
            let ghost before = hook_views(out@);
            let mut p: usize = 0;
            while p < out.len() && out[p].last_used >= w.last_used
                invariant
                    p <= out@.len(),
                    before == hook_views(out@),
                    forall|j: int| 0 <= j < p ==> before[j].last_used >= w.last_used,
                    first_used_before(before, w.last_used, p as int) == first_used_before(before, w.last_used, 0),
                decreases out@.len() - p,
            {
                p = p + 1;
            }
            assert forall|j: int| p <= j < before.len() implies before[j].last_used < w.last_used by {
                assert(before[p as int] == out@[p as int]@);
                assert(before[p as int].last_used < w.last_used);
            }
            let ghost wv = w@;
            assert(p == first_used_before(before, wv.last_used, 0));
            assert(self.hooks().subrange(0, i + 1).drop_last() =~= self.hooks().subrange(0, i as int));
            out.insert(p, w);
            assert(hook_views(out@) =~= before.insert(p as int, wv));
            assert(sorted_by_use(before.insert(p as int, wv))) by {
                let s2 = before.insert(p as int, wv);
                assert forall|a: int, b: int| 0 <= a < b < s2.len() implies s2[a].last_used >= s2[b].last_used by {
                    if b < p {
                    } else if b == p {
                    } else if a < p {
                        assert(before[a].last_used >= wv.last_used);
                        assert(before[b - 1].last_used < wv.last_used);
                    } else if a == p {
                        assert(before[b - 1].last_used < wv.last_used);
                    } else {
                        assert(before[a - 1].last_used >= before[b - 1].last_used);
                    }
                }
            }
            proof {
                to_multiset_insert_views(before, p as int, wv);
                assert(self.hooks().subrange(0, i + 1) =~= self.hooks().subrange(0, i as int).push(wv));
                vstd::seq_lib::to_multiset_build(self.hooks().subrange(0, i as int), wv);
            }
            i = i + 1;
        }
        assert(self.hooks().subrange(0, n as int) =~= self.hooks());
        out
    }
}

proof fn to_multiset_insert_views(s: Seq<WebhookModel>, i: int, a: WebhookModel)
    requires
        0 <= i <= s.len(),
    ensures
        s.insert(i, a).to_multiset() == s.to_multiset().insert(a),
{
    vstd::seq_lib::to_multiset_insert(s, i, a);
}

proof fn lemma_filter_all(s: Seq<WebhookModel>, pred: spec_fn(WebhookModel) -> bool)
    requires
        forall|j: int| 0 <= j < s.len() ==> pred(s[j]),
    ensures
        s.filter(pred) == s,
    decreases s.len(),
{
    reveal(Seq::filter);
    if s.len() > 0 {
        lemma_filter_all(s.drop_last(), pred);
        assert(s.drop_last().push(s.last()) =~= s);
    }
}

} // verus!
