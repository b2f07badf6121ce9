use vstd::prelude::*;

use crate::table::StringTable;
use crate::text::{contains_seq, contains_text, find_last, last_index_of, lemma_last_index_of_bounds};

verus! {

/// Credentials and endpoint of one S3-compatible provider.
#[derive(Debug)]
pub struct Keys {
    pub key_id: String,
    pub secret_key: String,
    pub endpoint_url: String,
}

/// The providers configured and the one in use.
#[derive(Debug)]
pub struct Config {
    /// Name of the provider in use.
    pub current_provider: String,
    /// Every configured provider by name.
    pub providers: StringTable<Keys>,
}

/// Why a provider cannot be used or selected.
#[derive(Debug)]
pub enum ProviderError {
    /// The provider in use has no entry in the configuration.
    ActiveProviderMissing,
    /// No provider of this name is configured.
    NotFound { name: String },
    /// The configuration file is not a valid TOML document.
    InvalidDocument(toml_edit::TomlError),
}

#[verifier::external_type_specification]
#[verifier::external_body]
pub struct ExTomlError(toml_edit::TomlError);

/// The text of the TOML document `text` once its top-level `key` is set to
/// the string `value`, or `None` when `text` does not parse as TOML.
pub uninterp spec fn toml_with_string_value(text: Seq<char>, key: Seq<char>, value: Seq<char>) -> Option<Seq<char>>;

/// Parses `text` as a `toml_edit::DocumentMut`, sets its top-level `key` to
/// the string `value`, and renders the document again. Trusted to give the
/// rendered text exactly when the parse succeeds, and to depend on its
/// arguments alone (the result is named, not described).
#[verifier::external_body]
fn set_toml_string_value(text: &str, key: &str, value: &str) -> (res: Result<String, toml_edit::TomlError>)
    ensures
        match res {
            Ok(s) => toml_with_string_value(text@, key@, value@) == Some(s@),
            Err(_) => toml_with_string_value(text@, key@, value@) is None,
        },
{
    let mut doc = text.parse::<toml_edit::DocumentMut>()?;
    doc[key] = value.to_string().into();
    Ok(doc.to_string())
}

/// The configuration text `text` with `current_provider` set to
/// `provider_name`, keeping everything else of the document.
pub fn config_text_with_provider(text: &str, provider_name: &str) -> (res: Result<String, ProviderError>)
    ensures
        match res {
            Ok(s) => toml_with_string_value(text@, "current_provider"@, provider_name@) == Some(
                s@,
            ),
            Err(e) => toml_with_string_value(text@, "current_provider"@, provider_name@) is None
                && e is InvalidDocument,
        },
{
    match set_toml_string_value(text, "current_provider", provider_name) {
        Ok(s) => Ok(s),
        Err(e) => Err(ProviderError::InvalidDocument(e)),
    }
}

impl Config {
    /// The configuration's invariant.
    pub open spec fn wf(&self) -> bool {
        self.providers.wf()
    }

    /// The keys of the provider in use, or `ActiveProviderMissing`.
    pub fn active_provider(&self) -> (res: Result<&Keys, ProviderError>)
        requires
            self.wf(),
        ensures
            match res {
                Ok(k) => self.providers@.contains_key(self.current_provider@) && *k
                    == self.providers@[self.current_provider@],
                Err(e) => !self.providers@.contains_key(self.current_provider@)
                    && e is ActiveProviderMissing,
            },
    {
        match self.providers.get(&self.current_provider) {
            Some(k) => Ok(k),
            None => Err(ProviderError::ActiveProviderMissing),
        }
    }

    /// Makes `provider_name` the provider in use, refused with `NotFound`
    /// when no such provider is configured.
    pub fn select_provider(&mut self, provider_name: String) -> (res: Result<(), ProviderError>)
        requires
            old(self).wf(),
        ensures
            final(self).wf(),
            final(self).providers == old(self).providers,
            old(self).providers@.contains_key(provider_name@) <==> (res is Ok),
            res is Ok ==> final(self).current_provider@ == provider_name@
                && final(self).providers@.contains_key(final(self).current_provider@),
            res matches Err(e) ==> (final(self).current_provider == old(self).current_provider
                && e == (ProviderError::NotFound { name: provider_name })),
    {
        if !self.providers.contains_key(&provider_name) {
            return Err(ProviderError::NotFound { name: provider_name });
        }
        self.current_provider = provider_name;
        Ok(())
    }

    /// Each configured provider's name with the label of its endpoint, in
    /// the configuration's order.
    pub fn provider_summaries(&self) -> (list: Vec<(String, String)>)
        requires
            self.wf(),
        ensures
            list@.len() == self.providers.entries().len(),
            forall|i: int|
                0 <= i < list@.len() ==> #[trigger] list@[i].0 == self.providers.entries()[i].0
                    && list@[i].1@ == spec_endpoint_label(
                    self.providers.entries()[i].1.endpoint_url@,
                ),
    {
        let mut list: Vec<(String, String)> = Vec::new();
        let n = self.providers.len();
        let mut i: usize = 0;
        while i < n
            invariant
                n == self.providers.entries().len(),
                i <= n,
                list@.len() == i,
                forall|j: int|
                    0 <= j < i ==> #[trigger] list@[j].0 == self.providers.entries()[j].0
                        && list@[j].1@ == spec_endpoint_label(
                        self.providers.entries()[j].1.endpoint_url@,
                    ),
            decreases n - i,
        {
            let (name, keys) = self.providers.entry(i);
            let label = endpoint_label(keys.endpoint_url.as_str());
            list.push((name.clone(), label));
            i = i + 1;
        }
        list
    }
}

impl Keys {
    /// Whether deleting a file may remove all its versions: every provider
    /// but one whose endpoint mentions `cloudflare`.
    pub fn supports_versioning(&self) -> (b: bool)
        ensures
            b == !contains_seq(self.endpoint_url@, "cloudflare"@),
    {
        !contains_text(self.endpoint_url.as_str(), "cloudflare")
    }
}

/// The last two dot-separated labels of `url` joined by a dot: the part
/// after its second-to-last `.`, or all of `url` when it has fewer than two.
pub open spec fn spec_endpoint_domain(url: Seq<char>) -> Seq<char> {
    let last = last_index_of(url, '.');
    if last < 0 {
        url
    } else {
        let second = last_index_of(url.take(last), '.');
        if second < 0 {
            url
        } else {
            url.subrange(second + 1, url.len() as int)
        }
    }
}

/// The endpoint domain of `url`, or `Unconfigured` when it is empty.
pub open spec fn spec_endpoint_label(url: Seq<char>) -> Seq<char> {
    if spec_endpoint_domain(url).len() == 0 {
        "Unconfigured"@
    } else {
        spec_endpoint_domain(url)
    }
}

/// The last two dot-separated labels of `url`.
pub fn endpoint_domain(url: &str) -> (domain: String)
    ensures
        domain@ == spec_endpoint_domain(url@),
{
    proof {
        lemma_last_index_of_bounds(url@, '.');
    }
    let n = url.unicode_len();
    match find_last(url, '.') {
        None => url.substring_char(0, n).to_owned(),
        Some(last) => {
            let head = url.substring_char(0, last);
            proof {
                assert(head@ == url@.take(last as int));
                lemma_last_index_of_bounds(head@, '.');
            }
            match find_last(head, '.') {
                None => url.substring_char(0, n).to_owned(),
                Some(second) => url.substring_char(second + 1, n).to_owned(),
            }
        },
    }
}

/// The endpoint domain of `url`, or `Unconfigured` when that is empty.
pub fn endpoint_label(url: &str) -> (label: String)
    ensures
        label@ == spec_endpoint_label(url@),
{
    let domain = endpoint_domain(url);
    if domain.as_str().unicode_len() == 0 {
        "Unconfigured".to_owned()
    } else {
        domain
    }
}

/// The endpoint domain is a tail of the URL; a URL without any `.` is its
/// own domain; and the label shows the domain whenever it is not empty,
/// `Unconfigured` only when it is.
pub proof fn lemma_endpoint_label_shows_domain(url: Seq<char>)
    ensures
        exists|prefix: Seq<char>| url == prefix + spec_endpoint_domain(url),
        (forall|i: int| 0 <= i < url.len() ==> url[i] != '.') ==> spec_endpoint_domain(url) == url,
        (forall|i: int| 0 <= i < url.len() ==> url[i] != '.') && url.len() > 0
            ==> spec_endpoint_label(url) == url,
        spec_endpoint_domain(url).len() > 0 ==> spec_endpoint_label(url) == spec_endpoint_domain(
            url,
        ),
        spec_endpoint_domain(url).len() == 0 ==> spec_endpoint_label(url) == "Unconfigured"@,
{
    lemma_last_index_of_bounds(url, '.');
    let last = last_index_of(url, '.');
    let domain = spec_endpoint_domain(url);
    let prefix = if last < 0 {
        Seq::<char>::empty()
    } else {
        let head = url.take(last);
        lemma_last_index_of_bounds(head, '.');
        let second = last_index_of(head, '.');
        if second < 0 {
            Seq::<char>::empty()
        } else {
            url.take(second + 1)
        }
    };
    assert(url =~= prefix + domain);
    assert(exists|p: Seq<char>| url == p + spec_endpoint_domain(url)) by {
        assert(url == prefix + spec_endpoint_domain(url));
    }
}

} // verus!
