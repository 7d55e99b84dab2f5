//! The resource inbox: the URLs this launch was asked to open, gathered from
//! the launch arguments, from a second launch that was turned away, and from
//! the operating system's open events.

use vstd::prelude::*;

verus! {

/// What `url::Url::parse` makes of a text: the URL's serialization when the
/// text is an absolute URL, nothing otherwise.
pub uninterp spec fn url_parse(input: Seq<char>) -> Option<Seq<char>>;

/// Relies on `url::Url::parse`, and on `From<Url> for String`, which hands
/// out the parsed URL's serialization.
#[verifier::external_body]
fn parse_url(input: &str) -> (r: Option<String>)
    ensures
        r.deep_view() == url_parse(input@),
{
    url::Url::parse(input).ok().map(String::from)
}

/// The values held by the parse results that succeeded, in their order.
pub open spec fn accepted(parsed: Seq<Option<Seq<char>>>) -> Seq<Seq<char>> {
    parsed.filter_map(|o: Option<Seq<char>>| o)
}

/// The URLs that an argument vector carries: every argument after the
/// program name that parses as a URL, in order.
pub open spec fn candidates(args: Seq<Seq<char>>) -> Seq<Seq<char>> {
    if args.len() == 0 {
        Seq::empty()
    } else {
        accepted(args.skip(1).map_values(|a: Seq<char>| url_parse(a)))
    }
}

/// The inbox after an intake of `urls`: replaced by them when there are
/// any, unchanged otherwise.
pub open spec fn after_intake(inbox: Seq<Seq<char>>, urls: Seq<Seq<char>>) -> Seq<Seq<char>> {
    if urls.len() > 0 {
        urls
    } else {
        inbox
    }
}

/// Whether a forwarded argument vector asks the front-end to look at the
/// inbox: whenever it carries anything beyond the program name.
pub open spec fn intercept_signals(args: Seq<Seq<char>>) -> bool {
    args.len() > 1
}

/// Keeps the values of the parse results that succeeded, in their order.
pub fn keep_parsed(parsed: &Vec<Option<String>>) -> (r: Vec<String>)
    ensures
        r.deep_view() == accepted(parsed.deep_view()),
{
    let mut r: Vec<String> = Vec::new();
    let mut i: usize = 0;
    while i < parsed.len()
        invariant
            i <= parsed.len(),
            r.deep_view() == accepted(parsed.deep_view().take(i as int)),
        decreases parsed.len() - i,
    {
        proof {
            let p = parsed.deep_view();
            assert(p.take(i as int + 1).drop_last() =~= p.take(i as int));
        }
        match &parsed[i] {
            Some(u) => {
                r.push(u.clone());
            },
            None => {},
        }
        i = i + 1;
        proof {
            let p = parsed.deep_view();
            assert(r.deep_view() =~= accepted(p.take(i as int)));
        }
    }
    proof {
        let p = parsed.deep_view();
        assert(p.take(parsed.len() as int) =~= p);
    }
    r
}


/// Parses every argument after the program name as a URL and keeps those
/// that parse, in their order.
pub fn parse_resources(args: &Vec<String>) -> (r: Vec<String>)
    ensures
        r.deep_view() == candidates(args.deep_view()),
{
    let mut parsed: Vec<Option<String>> = Vec::new();
    let mut i: usize = 1;
    while i < args.len()
        invariant
            1 <= i,
            args.len() > 0 ==> i <= args.len(),
            args.len() > 0 ==> parsed.deep_view() =~= args.deep_view().subrange(1, i as int).map_values(
                |a: Seq<char>| url_parse(a),
            ),
            args.len() == 0 ==> parsed.deep_view().len() == 0,
        decreases args.len() - i,
    {
        let p = parse_url(args[i].as_str());
        let ghost prev = parsed.deep_view();
        assert(args.deep_view()[i as int] == args[i as int]@);
        assert(p.deep_view() == url_parse(args.deep_view()[i as int]));
        parsed.push(p);
        assert(parsed.deep_view() =~= prev.push(p.deep_view()));
        i = i + 1;
        assert(parsed.deep_view() =~= args.deep_view().subrange(1, i as int).map_values(
            |a: Seq<char>| url_parse(a),
        ));
    }
    let r = keep_parsed(&parsed);
    proof {
        if args.len() > 0 {
            assert(args.deep_view().subrange(1, i as int) =~= args.deep_view().skip(1));
        } else {
            assert(parsed.deep_view() =~= Seq::<Option<Seq<char>>>::empty());
            assert(accepted(parsed.deep_view()) =~= Seq::<Seq<char>>::empty());
        }
    }
    r
}


/// Clones each URL of `urls`, in order.
fn copy_urls(urls: &Vec<String>) -> (r: Vec<String>)
    ensures
        r.deep_view() == urls.deep_view(),
{
    let mut r: Vec<String> = Vec::new();
    let mut i: usize = 0;
    while i < urls.len()
        invariant
            i <= urls.len(),
            r.deep_view() =~= urls.deep_view().take(i as int),
        decreases urls.len() - i,
    {
        let ghost prev = r.deep_view();
        r.push(urls[i].clone());
        assert(r.deep_view() =~= prev.push(urls.deep_view()[i as int]));
        i = i + 1;
    }
    assert(urls.deep_view().take(urls.len() as int) =~= urls.deep_view());
    r
}

/// The resources that this launch was asked to open, as URL serializations
/// in the order in which the latest intake handed them in.
pub struct ResourceInbox {
    urls: Vec<String>,
}

impl View for ResourceInbox {
    type V = Seq<Seq<char>>;

    closed spec fn view(&self) -> Seq<Seq<char>> {
        self.urls.deep_view()
    }
}

impl ResourceInbox {
    /// An empty inbox.
    pub fn new() -> (r: ResourceInbox)
        ensures
            r@ == Seq::<Seq<char>>::empty(),
    {
        let r = ResourceInbox { urls: Vec::new() };
        assert(r@ =~= Seq::<Seq<char>>::empty());
        r
    }

    /// Replaces the contents with `urls` when it holds any; an empty `urls`
    /// leaves the inbox as it was.
    pub fn replace(&mut self, urls: Vec<String>)
        ensures
            final(self)@ == after_intake(old(self)@, urls.deep_view()),
    {
        if urls.len() > 0 {
            self.urls = urls;
        }
    }

    /// Intake of an argument vector (at launch, or forwarded by a second
    /// launch): the URLs among the arguments after the program name replace
    /// the contents, if there are any. Intake at launch signals nothing.
    pub fn store_resources(&mut self, args: &Vec<String>)
        ensures
            final(self)@ == after_intake(old(self)@, candidates(args.deep_view())),
    {
        let urls = parse_resources(args);
        self.replace(urls);
    }

    /// Intake of the argument vector of a second launch that was turned away:
    /// its URLs are stored first; the result says whether the front-end must
    /// now be signalled, which is so whenever the vector carries anything
    /// beyond the program name, whether or not any of it parsed.
    pub fn intake_intercepted(&mut self, args: &Vec<String>) -> (signal: bool)
        ensures
            final(self)@ == after_intake(old(self)@, candidates(args.deep_view())),
            signal == intercept_signals(args.deep_view()),
    {
        let signal = args.len() > 1;
        self.store_resources(args);
        signal
    }

    /// Intake of an open event of the operating system, whose URLs were
    /// parsed already: they replace the contents unconditionally, and the
    /// front-end is always signalled.
    pub fn intake_opened(&mut self, urls: Vec<String>) -> (signal: bool)
        ensures
            final(self)@ == urls.deep_view(),
            signal,
    {
        self.urls = urls;
        true
    }

    /// A snapshot of the contents; reading does not clear the inbox.
    pub fn opened_resources(&self) -> (r: Vec<String>)
        ensures
            r.deep_view() == self@,
    {
        copy_urls(&self.urls)
    }
}


/// An intake replaces the inbox by exactly the URLs it carries, in their
/// order, so that the next read returns them; an intercepted argument vector
/// that carries arguments but no URL leaves the inbox as it was and still
/// signals the front-end.
pub proof fn lemma_intake_then_read(inbox: Seq<Seq<char>>, args: Seq<Seq<char>>)
    ensures
        candidates(args).len() > 0 ==> after_intake(inbox, candidates(args)) == candidates(args),
        candidates(args).len() == 0 ==> after_intake(inbox, candidates(args)) == inbox,
        args.len() > 1 ==> intercept_signals(args),
{
}

/// When every parse result succeeded, the accepted values are all of them,
/// in order.
proof fn lemma_accepted_all(parsed: Seq<Option<Seq<char>>>)
    requires
        forall|j: int| 0 <= j < parsed.len() ==> (#[trigger] parsed[j]) is Some,
    ensures
        accepted(parsed).len() == parsed.len(),
        forall|j: int| 0 <= j < parsed.len() ==> Some(#[trigger] accepted(parsed)[j]) == parsed[j],
    decreases parsed.len(),
{
    if parsed.len() > 0 {
        let rest = parsed.drop_last();
        assert forall|j: int| 0 <= j < rest.len() implies (#[trigger] rest[j]) is Some by {
            assert(rest[j] == parsed[j]);
        }
        lemma_accepted_all(rest);
        assert(parsed.last() is Some);
        assert(accepted(parsed) == accepted(rest) + seq![parsed.last()->Some_0]);
    }
}

/// Each URL that an argument vector yields is the parse of one of its
/// arguments after the program name.
pub proof fn lemma_candidate_is_parsed_argument(args: Seq<Seq<char>>, url: Seq<char>)
    requires
        candidates(args).contains(url),
    ensures
        exists|j: int| 1 <= j < args.len() && url_parse(#[trigger] args[j]) == Some(url),
{
    let f = |a: Seq<char>| url_parse(a);
    let mapped = args.skip(1).map_values(f);
    mapped.lemma_filter_map_contains(|o: Option<Seq<char>>| o, url);
    let o = choose|o: Option<Seq<char>>| #[trigger] mapped.contains(o) && o == Some(url);
    let k = choose|k: int| 0 <= k < mapped.len() && mapped[k] == o;
    assert(args[k + 1] == args.skip(1)[k]);
}

/// When every argument after the program name is a URL, the intake carries
/// all of them, in the order of the arguments.
pub proof fn lemma_candidates_keep_order(args: Seq<Seq<char>>)
    requires
        args.len() > 0,
        forall|j: int| 1 <= j < args.len() ==> url_parse(#[trigger] args[j]) is Some,
    ensures
        candidates(args).len() == args.len() - 1,
        forall|j: int|
            0 <= j < candidates(args).len() ==> Some(#[trigger] candidates(args)[j]) == url_parse(
                args[j + 1],
            ),
{
    let mapped = args.skip(1).map_values(|a: Seq<char>| url_parse(a));
    assert forall|j: int| 0 <= j < mapped.len() implies (#[trigger] mapped[j]) is Some by {
        assert(args.skip(1)[j] == args[j + 1]);
    }
    lemma_accepted_all(mapped);
    assert forall|j: int| 0 <= j < candidates(args).len() implies Some(
        #[trigger] candidates(args)[j],
    ) == url_parse(args[j + 1]) by {
        assert(mapped[j] == url_parse(args[j + 1]));
    }
}

} // verus!
