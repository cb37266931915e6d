//! The server builder: derives each bot's identity and callback route from its
//! token, keeps the shared route table, and supervises the bots' stop handles.
use vstd::prelude::*;
use vstd::string::*;
use crate::error::{AddBotError, BotError};
use crate::text::{append, holds_char, index_of, lemma_prefix_before, prefix_before, same_text};

verus! {

/// The callback address of the bot with identity `id` on a server reachable at `host`.
pub open spec fn bot_route(host: Seq<char>, id: Seq<char>) -> Seq<char> {
    host + seq!['/', 'b', 'o', 't', '/'] + id
}

/// The identity of the bot that `token` belongs to: the part before its first `:`.
pub open spec fn bot_id_of(token: Seq<char>) -> Seq<char> {
    prefix_before(token, ':')
}

/// Whether `url::Url::parse` accepts the text.
pub uninterp spec fn url_accepts(s: Seq<char>) -> bool;

/// Relies on `url::Url::parse`: whether a string parses depends on that string alone.
#[verifier::external_body]
fn parse_url(s: &str) -> (r: Result<url::Url, url::ParseError>)
    ensures
        r is Ok <==> url_accepts(s@),
{
    url::Url::parse(s)
}

/// The route table with `route` mounted; a route already present stays as it is.
pub open spec fn add_route(routes: Seq<Seq<char>>, route: Seq<char>) -> Seq<Seq<char>> {
    if routes.contains(route) {
        routes
    } else {
        routes.push(route)
    }
}

/// The route table after mounting each of `added` in turn.
pub open spec fn routes_after(routes: Seq<Seq<char>>, added: Seq<Seq<char>>) -> Seq<Seq<char>>
    decreases added.len(),
{
    if added.len() == 0 {
        routes
    } else {
        add_route(routes_after(routes, added.drop_last()), added.last())
    }
}

/// A bot whose identity and callback URL are settled, waiting for its webhook listener.
pub struct PendingBot {
    bot_id: String,
    route: String,
    url: url::Url,
}

impl PendingBot {
    pub closed spec fn bot_id_view(&self) -> Seq<char> {
        self.bot_id@
    }

    pub closed spec fn route_view(&self) -> Seq<char> {
        self.route@
    }

    pub fn bot_id(&self) -> (r: &String)
        ensures
            r@ == self.bot_id_view(),
    {
        &self.bot_id
    }

    pub fn route(&self) -> (r: &String)
        ensures
            r@ == self.route_view(),
    {
        &self.route
    }

    /// The parsed callback URL to hand to the webhook listener.
    pub fn url(&self) -> &url::Url {
        &self.url
    }
}

/// Accumulates bot registrations before the server starts.
pub struct BotServerBuilder {
    host: String,
    port: u16,
    routes: Vec<String>,
    bot_ids: Vec<String>,
}

impl BotServerBuilder {
    pub closed spec fn host_view(&self) -> Seq<char> {
        self.host@
    }

    pub closed spec fn port_view(&self) -> u16 {
        self.port
    }

    /// The mounted callback routes, each once.
    pub closed spec fn routes_view(&self) -> Seq<Seq<char>> {
        self.routes@.map_values(|s: String| s@)
    }

    /// The identities of the registered bots, in order of registration.
    pub closed spec fn bots_view(&self) -> Seq<Seq<char>> {
        self.bot_ids@.map_values(|s: String| s@)
    }

    /// A builder with no bots, for a server reachable at `host` that listens on `port` of the loopback address.
    pub fn new(host: String, port: u16) -> (r: Self)
        ensures
            r.host_view() == host@,
            r.port_view() == port,
            r.routes_view() == Seq::<Seq<char>>::empty(),
            r.bots_view() == Seq::<Seq<char>>::empty(),
    {
        let r = BotServerBuilder { host, port, routes: Vec::new(), bot_ids: Vec::new() };
        assert(r.routes_view() =~= Seq::<Seq<char>>::empty());
        assert(r.bots_view() =~= Seq::<Seq<char>>::empty());
        r
    }

    pub fn host(&self) -> (r: &String)
        ensures
            r@ == self.host_view(),
    {
        &self.host
    }

    /// The local address the HTTP server binds: always the loopback address.
    pub fn bind_address(&self) -> (r: ([u8; 4], u16))
        ensures
            r.0@ == seq![127u8, 0u8, 0u8, 1u8],
            r.1 == self.port_view(),
    {
        let a: [u8; 4] = [127, 0, 0, 1];
        assert(a@ =~= seq![127u8, 0u8, 0u8, 1u8]);
        (a, self.port)
    }

    /// Derives the bot's identity from `token` and its callback URL from the host.
    /// The builder is not changed, so a failure concerns this token alone.
    pub fn prepare_bot(&self, token: &str) -> (r: Result<PendingBot, AddBotError>)
        ensures
            match r {
                Ok(p) => {
                    &&& holds_char(token@, ':')
                    &&& p.bot_id_view() == bot_id_of(token@)
                    &&& p.route_view() == bot_route(self.host_view(), bot_id_of(token@))
                    &&& url_accepts(p.route_view())
                },
                Err(AddBotError::IdParse(t)) => !holds_char(token@, ':') && t@ == token@,
                Err(AddBotError::UrlParse(e)) => {
                    &&& holds_char(token@, ':')
                    &&& !url_accepts(bot_route(self.host_view(), bot_id_of(token@)))
                    &&& e.bot_id_view() == bot_id_of(token@)
                },
                Err(AddBotError::Listener(_)) => false,
            },
    {
        let k = index_of(token, ':');
        proof {
            lemma_prefix_before(token@, ':');
        }
        if k == token.unicode_len() {
            return Err(AddBotError::IdParse(token.to_owned()));
        }
        let id = token.substring_char(0, k).to_owned();
        assert(id@ == bot_id_of(token@));
        let mut route = self.host.clone();
        append(&mut route, "/bot/");
        append(&mut route, id.as_str());
        proof {
            reveal_strlit("/bot/");
        }
        assert(route@ =~= bot_route(self.host@, id@));
        match parse_url(route.as_str()) {
            Ok(url) => Ok(PendingBot { bot_id: id, route, url }),
            Err(e) => Err(AddBotError::UrlParse(BotError::new(id, e))),
        }
    }

    /// Records a bot whose webhook listener is set up: mounts its route and
    /// returns its identity.
    pub fn register(&mut self, pending: PendingBot) -> (r: String)
        ensures
            final(self).host_view() == old(self).host_view(),
            final(self).port_view() == old(self).port_view(),
            final(self).routes_view() == add_route(old(self).routes_view(), pending.route_view()),
            final(self).bots_view() == old(self).bots_view().push(pending.bot_id_view()),
            r@ == pending.bot_id_view(),
    {
        let PendingBot { bot_id, route, url: _ } = pending;
        let n = self.routes.len();
        let mut i: usize = 0;
        let mut found = false;
        while i < n
            invariant
                n == self.routes@.len(),
                i <= n,
                self.routes == old(self).routes,
                self.host == old(self).host,
                self.port == old(self).port,
                self.bot_ids == old(self).bot_ids,
                found == exists|j: int| 0 <= j < i && self.routes@[j]@ == route@,
            decreases n - i,
        {
            if same_text(self.routes[i].as_str(), route.as_str()) {
                found = true;
            }
            i = i + 1;
        }
        proof {
            let rs = old(self).routes_view();
            if found {
                let j = choose|j: int| 0 <= j < n && self.routes@[j]@ == route@;
                assert(rs[j] == route@);
            } else {
                assert forall|j: int| 0 <= j < rs.len() implies rs[j] != route@ by {}
            }
        }
        if !found {
            self.routes.push(route);
        }
        let r = bot_id.clone();
        self.bot_ids.push(bot_id);
        assert(self.routes_view() =~= add_route(old(self).routes_view(), pending.route_view()));
        assert(self.bots_view() =~= old(self).bots_view().push(pending.bot_id_view()));
        r
    }

    /// Ends registration: hands out the route table, the identities of the
    /// bots in registration order, and a supervisor with every bot and the
    /// server running.
    pub fn build(self) -> (r: (Vec<String>, Vec<String>, Supervisor))
        ensures
            r.0@.map_values(|s: String| s@) == self.routes_view(),
            r.1@.map_values(|s: String| s@) == self.bots_view(),
            r.2.running_view() == Seq::new(self.bots_view().len(), |i: int| true),
            r.2.serving_view(),
    {
        let n = self.bot_ids.len();
        let s = Supervisor::new(n);
        (self.routes, self.bot_ids, s)
    }
}

/// The run states after stop handle `i` fired: bot `i` stops.
pub open spec fn after_stop(running: Seq<bool>, i: int) -> Seq<bool> {
    running.update(i, false)
}

/// Tracks which bots' dispatch tasks run and whether the HTTP server serves.
pub struct Supervisor {
    running: Vec<bool>,
    serving: bool,
}

impl Supervisor {
    /// Whether each bot's dispatch task still runs, by registration index.
    pub closed spec fn running_view(&self) -> Seq<bool> {
        self.running@
    }

    /// Whether the HTTP server still serves.
    pub closed spec fn serving_view(&self) -> bool {
        self.serving
    }

    /// `n` bots and the server, all running.
    pub fn new(n: usize) -> (r: Self)
        ensures
            r.running_view() == Seq::new(n as nat, |i: int| true),
            r.serving_view(),
    {
        let mut running: Vec<bool> = Vec::new();
        let mut i: usize = 0;
        while i < n
            invariant
                i <= n,
                running@ == Seq::new(i as nat, |j: int| true),
            decreases n - i,
        {
            running.push(true);
            i = i + 1;
            assert(running@ =~= Seq::new(i as nat, |j: int| true));
        }
        Supervisor { running, serving: true }
    }

    pub fn is_running(&self, i: usize) -> (r: bool)
        requires
            i < self.running_view().len(),
        ensures
            r == self.running_view()[i as int],
    {
        self.running[i]
    }

    pub fn is_serving(&self) -> (r: bool)
        ensures
            r == self.serving_view(),
    {
        self.serving
    }

    /// Bot `i`'s stop handle fired: that bot's task ends, and the combined
    /// stop signal, which resolves on the first handle to fire, stops the server.
    pub fn stop_fired(&mut self, i: usize)
        requires
            i < old(self).running_view().len(),
        ensures
            final(self).running_view() == after_stop(old(self).running_view(), i as int),
            !final(self).serving_view(),
    {
        self.running.set(i, false);
        self.serving = false;
    }

    /// The server failed to bind or serve: every bot must stop. Returns the
    /// indices of the stop handles to fire, which are all of them.
    pub fn server_failed(&mut self) -> (r: Vec<usize>)
        ensures
            final(self).running_view() == Seq::new(old(self).running_view().len(), |i: int| false),
            !final(self).serving_view(),
            r@ == Seq::new(old(self).running_view().len(), |i: int| i as usize),
    {
        let n = self.running.len();
        let mut fire: Vec<usize> = Vec::new();
        let mut i: usize = 0;
        while i < n
            invariant
                n == self.running@.len(),
                n == old(self).running@.len(),
                i <= n,
                forall|j: int| 0 <= j < i ==> !self.running@[j],
                fire@ == Seq::new(i as nat, |j: int| j as usize),
            decreases n - i,
        {
            self.running.set(i, false);
            fire.push(i);
            i = i + 1;
            assert(fire@ =~= Seq::new(i as nat, |j: int| j as usize));
        }
        self.serving = false;
        assert(self.running@ =~= Seq::new(n as nat, |j: int| false));
        fire
    }
}

/// Firing one bot's stop handle ends that bot's task and leaves every other
/// bot's task as it was.
pub proof fn lemma_stop_is_isolated(running: Seq<bool>, i: int, j: int)
    requires
        0 <= i < running.len(),
        0 <= j < running.len(),
        i != j,
    ensures
        !after_stop(running, i)[i],
        after_stop(running, i)[j] == running[j],
        after_stop(running, i).len() == running.len(),
{
}

/// Bots with distinct identities get distinct callback routes on one host.
pub proof fn lemma_bot_route_injective(host: Seq<char>, a: Seq<char>, b: Seq<char>)
    requires
        a != b,
    ensures
        bot_route(host, a) != bot_route(host, b),
{
    let h = host + seq!['/', 'b', 'o', 't', '/'];
    if bot_route(host, a) == bot_route(host, b) {
        assert(bot_route(host, a).skip(h.len() as int) =~= a);
        assert(bot_route(host, b).skip(h.len() as int) =~= b);
    }
}

/// The callback routes of the bots with the given tokens, in order.
pub open spec fn token_routes(host: Seq<char>, tokens: Seq<Seq<char>>) -> Seq<Seq<char>> {
    tokens.map_values(|t: Seq<char>| bot_route(host, bot_id_of(t)))
}

/// Registering bots whose tokens all carry a separator and whose identities are
/// pairwise distinct leaves a route table with one distinct route per bot.
pub proof fn lemma_distinct_bots_distinct_routes(host: Seq<char>, tokens: Seq<Seq<char>>)
    requires
        forall|k: int| 0 <= k < tokens.len() ==> holds_char(#[trigger] tokens[k], ':'),
        forall|k: int, l: int|
            0 <= k < tokens.len() && 0 <= l < tokens.len() && k != l ==> bot_id_of(
                #[trigger] tokens[k],
            ) != bot_id_of(#[trigger] tokens[l]),
    ensures
        routes_after(seq![], token_routes(host, tokens)) == token_routes(host, tokens),
        token_routes(host, tokens).len() == tokens.len(),
        forall|k: int, l: int|
            0 <= k < tokens.len() && 0 <= l < tokens.len() && k != l ==> token_routes(host, tokens)[k]
                != token_routes(host, tokens)[l],
    decreases tokens.len(),
{
    let rs = token_routes(host, tokens);
    assert forall|k: int, l: int|
        0 <= k < tokens.len() && 0 <= l < tokens.len() && k != l implies rs[k] != rs[l] by {
        lemma_bot_route_injective(host, bot_id_of(tokens[k]), bot_id_of(tokens[l]));
    }
    if tokens.len() > 0 {
        let front = tokens.drop_last();
        lemma_distinct_bots_distinct_routes(host, front);
        assert(rs.drop_last() =~= token_routes(host, front));
        let prev = routes_after(seq![], token_routes(host, front));
        if prev.contains(rs.last()) {
            let k = choose|k: int| 0 <= k < prev.len() && prev[k] == rs.last();
            assert(rs[k] == rs[tokens.len() - 1]);
        }
        assert(prev.push(rs.last()) =~= rs);
    }
}

} // verus!
