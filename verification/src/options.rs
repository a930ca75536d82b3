//! The option resolver: a flat string-keyed option list with typed accessors.
//!
//! Values are stored verbatim; `is_enabled` reads the strings `"true"` and
//! `"false"`, and anything else (or an absent key) falls back to the given
//! default.
use vstd::prelude::*;
use vstd::string::StringExecFns;

use crate::domain::{spec_internal_domain, InternalDomain};
use crate::driver::Pipeline;
use crate::text::str_eq;

verus! {

/// The resolved options of one document conversion.
pub struct MarkdonwItOptions {
    options: Vec<(String, String)>,
}

/// The value stored under `key`, scanning the pairs front to back.
pub open spec fn opt_lookup(opts: Seq<(Seq<char>, Seq<char>)>, key: Seq<char>) -> Option<
    Seq<char>,
>
    decreases opts.len(),
{
    if opts.len() == 0 {
        None
    } else if opts[0].0 == key {
        Some(opts[0].1)
    } else {
        opt_lookup(opts.drop_first(), key)
    }
}

/// What `is_enabled` answers for a stored option list.
pub open spec fn spec_is_enabled(
    opts: Seq<(Seq<char>, Seq<char>)>,
    key: Seq<char>,
    default: bool,
) -> bool {
    match opt_lookup(opts, key) {
        Some(v) => if v == "true"@ {
            true
        } else if v == "false"@ {
            false
        } else {
            default
        },
        None => default,
    }
}

impl View for MarkdonwItOptions {
    type V = Seq<(Seq<char>, Seq<char>)>;

    closed spec fn view(&self) -> Seq<(Seq<char>, Seq<char>)> {
        crate::node::attrs_view(self.options@)
    }
}

proof fn lemma_opt_lookup_skip(opts: Seq<(Seq<char>, Seq<char>)>, key: Seq<char>, i: int)
    requires
        0 <= i <= opts.len(),
        forall|j: int| 0 <= j < i ==> (#[trigger] opts[j]).0 != key,
    ensures
        opt_lookup(opts, key) == opt_lookup(opts.skip(i), key),
    decreases i,
{
    if i > 0 {
        assert(opts[0].0 != key);
        assert(forall|j: int|
            0 <= j < i - 1 ==> (#[trigger] opts.drop_first()[j]).0 == opts[j + 1].0);
        lemma_opt_lookup_skip(opts.drop_first(), key, i - 1);
        assert(opts.drop_first().skip(i - 1) =~= opts.skip(i));
    } else {
        assert(opts.skip(0) =~= opts);
    }
}

impl MarkdonwItOptions {
    /// Wraps a list of option pairs, stored as given.
    pub fn new(options: Vec<(String, String)>) -> (r: Self)
        ensures
            r@ == crate::node::attrs_view(options@),
    {
        Self { options }
    }

    /// Hands these options to the pipeline; passes read them at run time.
    pub fn add(self, p: &mut Pipeline)
        ensures
            final(p).options is Some,
            final(p).options->0 == self,
            final(p).heading == old(p).heading,
            final(p).link == old(p).link,
            final(p).table == old(p).table,
            final(p).toc == old(p).toc,
            final(p).emphasis == old(p).emphasis,
    {
        p.options = Some(self);
    }

    /// The stored value under `key`, or nothing.
    pub fn get_option(&self, key: &str) -> (r: Option<&String>)
        ensures
            (match r {
                Some(v) => opt_lookup(self@, key@) == Some(v@),
                None => opt_lookup(self@, key@) is None,
            }),
    {
        let n = self.options.len();
        let mut i: usize = 0;
        while i < n
            invariant
                i <= n,
                n == self.options@.len(),
                self@.len() == n,
                forall|j: int| 0 <= j < i ==> (#[trigger] self@[j]).0 != key@,
            decreases n - i,
        {
            if str_eq(self.options[i].0.as_str(), key) {
                proof {
                    lemma_opt_lookup_skip(self@, key@, i as int);
                    assert(self@.skip(i as int)[0] == self@[i as int]);
                    assert(self@[i as int].0 == key@);
                }
                return Some(&self.options[i].1);
            }
            i = i + 1;
        }
        proof {
            lemma_opt_lookup_skip(self@, key@, n as int);
            assert(self@.skip(n as int) =~= Seq::<(Seq<char>, Seq<char>)>::empty());
        }
        None
    }

    /// The stored value under `key`, or `default` when the key is absent.
    pub fn get_option_or_default(&self, key: &str, default: &str) -> (r: String)
        ensures
            r@ == (match opt_lookup(self@, key@) {
                Some(v) => v,
                None => default@,
            }),
    {
        match self.get_option(key) {
            Some(v) => v.clone(),
            None => default.to_owned(),
        }
    }

    /// The matcher derived from the configured base domain, or nothing when
    /// the option is absent or names nothing with a domain.
    pub fn internal_domain(&self) -> (r: Option<InternalDomain>)
        ensures
            (match opt_lookup(self@, "internal_domain_name"@) {
                None => r is None,
                Some(name) => match r {
                    Some(d) => spec_internal_domain(name) == Some((d.base_str(), d.domain_str())),
                    None => spec_internal_domain(name) is None,
                },
            }),
    {
        let domain_name = self.get_option("internal_domain_name");
        match domain_name {
            None => None,
            Some(domain_name) => InternalDomain::new(domain_name.clone()),
        }
    }

    /// `true` when the stored value is exactly `"true"`, `false` when it is
    /// exactly `"false"`, and `default` otherwise.
    pub fn is_enabled(&self, key: &str, default: bool) -> (r: bool)
        ensures
            r == spec_is_enabled(self@, key@, default),
    {
        let v = self.get_option_or_default(key, "_NOT_APPLICABLE");
        proof {
            reveal_strlit("_NOT_APPLICABLE");
            reveal_strlit("true");
            reveal_strlit("false");
            assert("_NOT_APPLICABLE"@.len() == 15);
            assert("true"@.len() == 4);
            assert("false"@.len() == 5);
        }
        if str_eq(v.as_str(), "true") {
            true
        } else if str_eq(v.as_str(), "false") {
            false
        } else {
            default
        }
    }
}

} // verus!
