//! The whole configuration: the global section plus the ordered hook list,
//! and hook selection by request URL.  When several hooks share an id, the
//! last one in declaration order wins.

use super::{global::GlobalConfig, log_path_of, Config};
use crate::parser::{hook_id_of, parse_hook_id_from_url, req_lookup};
use crate::strmap::StrMap;
use crate::strutil::str_eq;
use vstd::prelude::*;

verus! {

/// The loaded configuration, immutable for the process lifetime.
pub struct Configs {
    pub global: GlobalConfig,
    pub hooks: Vec<Config>,
}

/// The ids of the configured hooks, in declaration order.
pub open spec fn hook_ids(hooks: Seq<Config>) -> Seq<Seq<char>> {
    Seq::new(hooks.len(), |i: int| hooks[i].id@)
}

/// The index of the last hook whose id is `id`, or -1.
pub open spec fn last_hook_index(hooks: Seq<Config>, id: Seq<char>) -> int
    decreases hooks.len(),
{
    if hooks.len() == 0 {
        -1
    } else if hooks.last().id@ == id {
        hooks.len() - 1
    } else {
        last_hook_index(hooks.drop_last(), id)
    }
}

pub proof fn lemma_last_hook_index(hooks: Seq<Config>, id: Seq<char>)
    ensures
        last_hook_index(hooks, id) >= -1,
        last_hook_index(hooks, id) == -1 ==> forall|i: int|
            0 <= i < hooks.len() ==> hooks[i].id@ != id,
        last_hook_index(hooks, id) >= 0 ==> {
            &&& last_hook_index(hooks, id) < hooks.len()
            &&& hooks[last_hook_index(hooks, id)].id@ == id
            &&& forall|i: int| last_hook_index(hooks, id) < i < hooks.len() ==> hooks[i].id@ != id
        },
    decreases hooks.len(),
{
    if hooks.len() > 0 && hooks.last().id@ != id {
        lemma_last_hook_index(hooks.drop_last(), id);
        assert forall|i: int| 0 <= i < hooks.drop_last().len() implies hooks.drop_last()[i]
            == hooks[i] by {}
    }
}

impl Configs {
    /// The configured hook ids, in order.
    pub fn get_webhook_ids(&self) -> (r: Vec<String>)
        ensures
            r.deep_view() == hook_ids(self.hooks@),
    {
        let mut webhook_ids: Vec<String> = Vec::new();
        let mut i: usize = 0;
        while i < self.hooks.len()
            invariant
                0 <= i <= self.hooks@.len(),
                webhook_ids@.len() == i,
                forall|j: int| 0 <= j < i ==> webhook_ids@[j]@ == self.hooks@[j].id@,
            decreases self.hooks@.len() - i,
        {
            webhook_ids.push(self.hooks[i].id.clone());
            i = i + 1;
        }
        proof {
            assert(webhook_ids.deep_view() =~~= hook_ids(self.hooks@));
        }
        webhook_ids
    }

    /// The hook the request's URL addresses: the last configured hook whose
    /// id equals the id parsed from the URL.  `None` when the request has no
    /// URL or no hook matches; the caller then falls back to the default
    /// configuration.
    pub fn get_config_by_http_request<'a>(&'a self, http_request: &StrMap) -> (r: Option<
        &'a Config,
    >)
        ensures
            match r {
                Some(c) => {
                    &&& req_lookup(http_request@, "Url"@) is Some
                    &&& last_hook_index(
                        self.hooks@,
                        hook_id_of(http_request@["Url"@]),
                    ) >= 0
                    &&& *c == self.hooks@[last_hook_index(
                        self.hooks@,
                        hook_id_of(http_request@["Url"@]),
                    )]
                },
                None => match req_lookup(http_request@, "Url"@) {
                    Some(url) => last_hook_index(self.hooks@, hook_id_of(url)) == -1,
                    None => true,
                },
            },
    {
        let url = match http_request.get("Url") {
            Some(u) => u,
            None => {
                return None;
            },
        };
        let requested_id = parse_hook_id_from_url(url.as_str());
        let mut k: usize = self.hooks.len();
        while k > 0
            invariant
                0 <= k <= self.hooks@.len(),
                requested_id@ == hook_id_of(http_request@["Url"@]),
                req_lookup(http_request@, "Url"@) == Some(url@),
                forall|j: int| k <= j < self.hooks@.len() ==> self.hooks@[j].id@ != requested_id@,
            decreases k,
        {
            if str_eq(self.hooks[k - 1].id.as_str(), requested_id.as_str()) {
                proof {
                    lemma_last_hook_index(self.hooks@, requested_id@);
                    let li = last_hook_index(self.hooks@, requested_id@);
                    assert(self.hooks@[k - 1].id@ == requested_id@);
                    assert(li >= 0) by {
                        if li == -1 {
                            assert(self.hooks@[k - 1].id@ != requested_id@);
                        }
                    }
                    assert(li == k - 1) by {
                        if li > k - 1 {
                            assert(self.hooks@[li].id@ != requested_id@);
                        }
                        if li < k - 1 {
                            assert(self.hooks@[k - 1].id@ != requested_id@);
                        }
                    }
                }
                return Some(&self.hooks[k - 1]);
            }
            k = k - 1;
        }
        proof {
            lemma_last_hook_index(self.hooks@, requested_id@);
            let li = last_hook_index(self.hooks@, requested_id@);
            assert(li == -1) by {
                if li >= 0 {
                    assert(self.hooks@[li].id@ != requested_id@);
                }
            }
        }
        None
    }

    /// The global log file path.
    pub fn get_global_log_path(&self) -> (r: String)
        ensures
            r@ == log_path_of(
                self.global.log_dir@,
                match self.global.log_prefix {
                    Some(p) => p@,
                    None => "webhook"@,
                },
            ),
    {
        self.global.get_log_path()
    }
}

} // verus!
