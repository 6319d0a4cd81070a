//! Web-search items: a search provider and the item representing "search
//! the web for this query with that provider".

use vstd::prelude::*;
use vstd::string::*;

verus! {

/// What `urlencoding::encode` returns, named: the percent-encoded form of a
/// character sequence. The result depends on the input characters alone.
pub uninterp spec fn url_encoded(s: Seq<char>) -> Seq<char>;

/// Relies on urlencoding::encode: percent-encodes every byte outside
/// `0-9A-Za-z_.~-`; the result is a pure function of the input string.
#[verifier::external_body]
pub(crate) fn url_encode(s: &str) -> (r: String)
    ensures
        r@ == url_encoded(s@),
        s@.len() == 0 ==> r@.len() == 0,
{
    urlencoding::encode(s).into_owned()
}

/// A web-search provider: a display name and the URL prefix that a
/// percent-encoded query is appended to.
pub struct SearchProvider {
    /// Display name of the provider (e.g. "Google").
    pub name: String,
    /// URL prefix the encoded query is appended to.
    pub url_prefix: String,
    /// Name of the icon shown for this provider.
    pub icon: String,
}

impl Clone for SearchProvider {
    fn clone(&self) -> (r: Self)
        ensures
            r == *self,
    {
        SearchProvider {
            name: self.name.clone(),
            url_prefix: self.url_prefix.clone(),
            icon: self.icon.clone(),
        }
    }
}

impl SearchProvider {
    /// Build the search URL for a query: the provider's URL prefix followed
    /// by the percent-encoded query.
    pub fn build_url(&self, query: &str) -> (r: String)
        ensures
            r@ == self.url_prefix@ + url_encoded(query@),
    {
        let mut url = self.url_prefix.clone();
        let encoded = url_encode(query);
        url.append(encoded.as_str());
        url
    }
}

/// A search item representing a web search query for a specific provider.
pub struct SearchItem {
    /// Unique identifier for this item (e.g., "search-google-rust").
    pub id: String,
    /// Display name (e.g., "Search on Google").
    pub name: String,
    /// The search provider.
    pub provider: SearchProvider,
    /// The search query.
    pub query: String,
    /// The generated search URL.
    pub url: String,
}

impl Clone for SearchItem {
    fn clone(&self) -> (r: Self)
        ensures
            r == *self,
    {
        SearchItem {
            id: self.id.clone(),
            name: self.name.clone(),
            provider: self.provider.clone(),
            query: self.query.clone(),
            url: self.url.clone(),
        }
    }
}

impl SearchItem {
    /// Create a new search item for a provider and query. The identifier is
    /// "search-", the lowercased provider name and the query, joined with
    /// "-"; the display name is "Search on " followed by the provider name.
    pub fn new(provider: SearchProvider, query: String) -> (r: Self)
        ensures
            r.id@ == "search-"@ + crate::filter::lower_of(provider.name@) + "-"@ + query@,
            r.name@ == "Search on "@ + provider.name@,
            r.url@ == provider.url_prefix@ + url_encoded(query@),
            r.provider == provider,
            r.query == query,
    {
        let url = provider.build_url(query.as_str());
        let lower_name = crate::filter::lowercase(provider.name.as_str());
        let mut id = String::from_str("search-");
        id.append(lower_name.as_str());
        id.append("-");
        id.append(query.as_str());
        let mut name = String::from_str("Search on ");
        name.append(provider.name.as_str());
        proof {
            assert(id@ =~= "search-"@ + crate::filter::lower_of(provider.name@) + "-"@
                + query@);
        }
        SearchItem { id, name, provider, query, url }
    }

    /// Get the name of the icon for this search item: the provider's icon.
    pub fn icon(&self) -> (r: &str)
        ensures
            r@ == self.provider.icon@,
    {
        self.provider.icon.as_str()
    }

    /// Get the action label.
    pub fn action_label(&self) -> (r: &'static str)
        ensures
            r@ == "Open"@,
    {
        "Open"
    }
}

} // verus!
