//! The headers of the upgrade request.
//!
//! The HTTP tokenizer is not part of this crate. It reports header names and
//! values as it finds them; [`HttpParser`] collects them into a
//! [`HeaderStore`], which the connection takes over once the header section
//! is complete.

use vstd::hash_map::StringHashMap;
use vstd::prelude::*;

verus! {

/// The name of the header that carries the client's key.
pub const KEY_HEADER: &'static str = "Sec-WebSocket-Key";

/// Header names with their values, case as received. Where a name is stored
/// twice, the later value stands.
pub struct HeaderStore {
    map: StringHashMap<String>,
}

impl View for HeaderStore {
    type V = Map<Seq<char>, Seq<char>>;

    closed spec fn view(&self) -> Map<Seq<char>, Seq<char>> {
        self.map@.map_values(|v: String| v@)
    }
}

impl HeaderStore {
    /// An empty store.
    pub fn new() -> (r: HeaderStore)
        ensures
            r@ == Map::<Seq<char>, Seq<char>>::empty(),
    {
        let r = HeaderStore { map: StringHashMap::new() };
        r
    }

    /// Stores `value` under `name`, in place of any earlier value.
    pub fn insert(&mut self, name: String, value: String)
        ensures
            final(self)@ == old(self)@.insert(name@, value@),
    {
        self.map.insert(name, value);
    }

    /// The value stored under `name`, if there is one.
    pub fn get(&self, name: &str) -> (r: Option<&String>)
        ensures
            match r {
                Some(value) => self@.contains_key(name@) && self@[name@] == value@,
                None => !self@.contains_key(name@),
            },
    {
        self.map.get(name)
    }

    /// Whether a value is stored under `name`.
    pub fn contains(&self, name: &str) -> (r: bool)
        ensures
            r == self@.contains_key(name@),
    {
        self.map.contains_key(name)
    }

    /// The number of names stored.
    pub fn len(&self) -> (r: usize)
        ensures
            r == self@.len(),
    {
        proof {
            lemma_same_domain(self.map@);
        }
        self.map.len()
    }
}

/// Taking the view of each value keeps the names.
proof fn lemma_same_domain(m: Map<Seq<char>, String>)
    ensures
        m.map_values(|v: String| v@).dom() == m.dom(),
        m.map_values(|v: String| v@).len() == m.len(),
{
    assert(m.map_values(|v: String| v@).dom() =~= m.dom());
}

/// What the tokenizer's callbacks build up: the headers found so far, the
/// name that still waits for its value, and whether the header section has
/// ended.
pub struct HttpParser {
    pub current_key: Option<String>,
    pub headers: HeaderStore,
    pub complete: bool,
}

/// The parser's state as a mathematical value.
#[verifier::ext_equal]
pub struct HttpParserView {
    pub current_key: Option<Seq<char>>,
    pub headers: Map<Seq<char>, Seq<char>>,
    pub complete: bool,
}

impl View for HttpParser {
    type V = HttpParserView;

    open spec fn view(&self) -> HttpParserView {
        HttpParserView {
            current_key: match self.current_key {
                Some(name) => Some(name@),
                None => None,
            },
            headers: self.headers@,
            complete: self.complete,
        }
    }
}

impl HttpParser {
    /// A parser that has seen nothing yet.
    pub fn new() -> (r: HttpParser)
        ensures
            r@ == (HttpParserView {
                current_key: None,
                headers: Map::<Seq<char>, Seq<char>>::empty(),
                complete: false,
            }),
    {
        HttpParser { current_key: None, headers: HeaderStore::new(), complete: false }
    }

    /// A header name was found: it waits for its value. Returns `true`, for
    /// the tokenizer to go on.
    pub fn on_header_field(&mut self, s: String) -> (go_on: bool)
        ensures
            go_on,
            final(self)@ == (HttpParserView { current_key: Some(s@), ..old(self)@ }),
    {
        self.current_key = Some(s);
        true
    }

    /// A header value was found: it is stored under the name that waits, and
    /// the tokenizer is to go on. Where no name waits the value is refused
    /// and nothing changes.
    pub fn on_header_value(&mut self, s: String) -> (go_on: bool)
        ensures
            go_on == old(self)@.current_key is Some,
            match old(self)@.current_key {
                Some(name) => final(self)@ == (HttpParserView {
                    headers: old(self)@.headers.insert(name, s@),
                    ..old(self)@
                }),
                None => final(self)@ == old(self)@,
            },
    {
        match &self.current_key {
            Some(name) => {
                let name = name.clone();
                self.headers.insert(name, s);
                true
            },
            None => false,
        }
    }

    /// The header section has ended. Returns `false`, which tells the
    /// tokenizer that no body is to be read.
    pub fn on_headers_complete(&mut self) -> (go_on: bool)
        ensures
            !go_on,
            final(self)@ == (HttpParserView { complete: true, ..old(self)@ }),
    {
        self.complete = true;
        false
    }

    /// Hands the headers over and starts afresh.
    pub fn take_headers(&mut self) -> (r: HeaderStore)
        ensures
            r@ == old(self)@.headers,
            final(self)@ == (HttpParserView {
                current_key: None,
                headers: Map::<Seq<char>, Seq<char>>::empty(),
                complete: false,
            }),
    {
        let mut taken = HeaderStore::new();
        core::mem::swap(&mut self.headers, &mut taken);
        self.current_key = None;
        self.complete = false;
        taken
    }
}

} // verus!
