//! Slash commands: parsing a message into a command, and a registry of built-in
//! command handlers.

use crate::strmap::StrMap;
use crate::text::{chars_of, concat4, join, join_seq, str_eq, to_string, views, lemma_lex_total, lemma_lex_transitive, lex_lt, has_ascii_upper, spec_to_lowercase, str_lt, string_of_range, to_lowercase};
use vstd::prelude::*;

verus! {

/// The index of the first space in `s`, if any.
pub open spec fn first_space(s: Seq<char>) -> Option<int> {
    if exists|i: int| 0 <= i < s.len() && s[i] == ' ' {
        Some(choose|i: int| 0 <= i < s.len() && s[i] == ' ' && forall|j: int| 0 <= j < i ==> s[j] != ' ')
    } else {
        None
    }
}

/// What `parse_command` yields for a message: `None` unless it starts with `/`;
/// otherwise the lowercased word after the `/` and the rest after the first space.
pub open spec fn parsed_command(content: Seq<char>) -> Option<(Seq<char>, Seq<char>)> {
    if content.len() == 0 || content[0] != '/' {
        None
    } else {
        let rest = content.drop_first();
        match first_space(rest) {
            Some(i) => Some((spec_to_lowercase(rest.take(i)), rest.skip(i + 1))),
            None => Some((spec_to_lowercase(rest), Seq::empty())),
        }
    }
}

/// Parses a message as a slash command, giving `(name, args)`.
pub fn parse_command(content: &str) -> (r: Option<(String, String)>)
    ensures
        match r {
            Some((name, args)) => parsed_command(content@) == Some((name@, args@)),
            None => parsed_command(content@) is None,
        },
{
    let cs = chars_of(content);
    if cs.len() == 0 || cs[0] != '/' {
        return None;
    }
    let mut i: usize = 1;
    while i < cs.len() && cs[i] != ' '
        invariant
            1 <= i <= cs@.len(),
            forall|j: int| 1 <= j < i ==> cs@[j] != ' ',
        decreases cs@.len() - i,
    {
        i = i + 1;
    }
    let ghost rest = cs@.drop_first();
    let word = string_of_range(&cs, 1, i);
    let name = to_lowercase(word.as_str());
    if i < cs.len() {
        let args = string_of_range(&cs, i + 1, cs.len());
        proof {
            let k = (i - 1) as int;
            assert(rest[k] == ' ');
            let c = choose|c: int| 0 <= c < rest.len() && rest[c] == ' ' && forall|j: int| 0 <= j < c ==> rest[j] != ' ';
            if c < k {
                assert(rest[c] == cs@[c + 1]);
            }
            if c > k {
                assert(rest[k] != ' ');
            }
            assert(c == k);
            assert(rest.take(k) == cs@.subrange(1, i as int));
            assert(rest.skip(k + 1) == cs@.subrange(i + 1, cs@.len() as int));
        }
        Some((name, args))
    } else {
        let args = String::new();
        proof {
            assert forall|c: int| 0 <= c < rest.len() implies rest[c] != ' ' by {
                assert(rest[c] == cs@[c + 1]);
            }
            assert(rest == cs@.subrange(1, i as int));
        }
        Some((name, args))
    }
}

/// Metadata of a registered command.
pub struct CommandInfo {
    /// Short description of the command.
    pub description: String,
}

impl CommandInfo {
    pub fn new(description: &str) -> (r: Self)
        ensures
            r.description@ == description@,
    {
        CommandInfo { description: description.to_owned() }
    }
}

/// Name and description pairs, strictly ascending by name.
pub open spec fn sorted_by_name(s: Seq<(Seq<char>, Seq<char>)>) -> bool {
    forall|i: int, j: int| 0 <= i < j < s.len() ==> lex_lt(#[trigger] s[i].0, #[trigger] s[j].0)
}

/// The view of a list of name and description pairs.
pub open spec fn pair_views(s: Seq<(String, String)>) -> Seq<(Seq<char>, Seq<char>)> {
    s.map_values(|p: (String, String)| (p.0@, p.1@))
}

/// `l` is the listing of `descs`: every command once, ascending by name.
pub open spec fn lists_commands(descs: Map<Seq<char>, Seq<char>>, l: Seq<(Seq<char>, Seq<char>)>) -> bool {
    &&& sorted_by_name(l)
    &&& l.len() == descs.len()
    &&& forall|i: int| 0 <= i < l.len() ==> descs.contains_key(#[trigger] l[i].0) && descs[l[i].0] == l[i].1
    &&& forall|n: Seq<char>| #[trigger] descs.contains_key(n) ==> exists|i: int| 0 <= i < l.len() && l[i].0 == n
}

/// The help line of each listed command other than `help` and `clear`.
pub open spec fn command_lines(l: Seq<(Seq<char>, Seq<char>)>) -> Seq<Seq<char>>
    decreases l.len(),
{
    if l.len() == 0 {
        Seq::empty()
    } else {
        let e = l.last();
        let rest = command_lines(l.drop_last());
        if e.0 == "help"@ || e.0 == "clear"@ {
            rest
        } else {
            rest.push("/"@ + e.0 + " - "@ + e.1)
        }
    }
}

/// The help text for a command listing.
pub open spec fn help_text(l: Seq<(Seq<char>, Seq<char>)>) -> Seq<char> {
    join_seq(
        seq!["Available commands:"@, "/help - Show available commands"@, "/clear - Clear conversation history"@]
            + command_lines(l) + seq![""@, "Use /<command> to invoke a command."@],
        "\n"@,
    )
}

/// `k` is what `str::to_lowercase` gives for some text.
pub open spec fn is_lowered(k: Seq<char>) -> bool {
    exists|n: Seq<char>| k == #[trigger] spec_to_lowercase(n)
}

/// Registry of built-in commands; each name maps to a handler, called with
/// `(channel, chat_id, args)`, and a description.
pub struct CommandRegistry<H> {
    commands: StrMap<(H, CommandInfo)>,
}

impl<H: Fn(&str, &str, &str) -> Option<String>> CommandRegistry<H> {
    pub closed spec fn wf(&self) -> bool {
        &&& self.commands.wf()
        &&& forall|k: Seq<char>| #[trigger] self.commands.view().contains_key(k) ==> is_lowered(k) && !has_ascii_upper(k)
    }

    /// Every registered name is the lowercase form of the name it was registered
    /// under.
    pub proof fn lemma_names_lowered(&self)
        requires
            self.wf(),
        ensures
            forall|k: Seq<char>| #[trigger] self.descriptions().contains_key(k) ==> is_lowered(k) && !has_ascii_upper(k),
    {
    }

    /// Registered names with their descriptions.
    pub closed spec fn descriptions(&self) -> Map<Seq<char>, Seq<char>> {
        self.commands.view().map_values(|e: (H, CommandInfo)| e.1.description@)
    }

    /// The handler registered under a name.
    pub closed spec fn handler(&self, name: Seq<char>) -> H {
        self.commands.view()[name].0
    }

    /// An empty registry.
    pub fn new() -> (r: Self)
        ensures
            r.wf(),
            r.descriptions() == Map::<Seq<char>, Seq<char>>::empty(),
    {
        let r = CommandRegistry { commands: StrMap::new() };
        assert(r.descriptions() =~= Map::<Seq<char>, Seq<char>>::empty());
        r
    }

    /// Registers `handler` under the lowercased `name`, replacing an earlier one.
    pub fn register(&mut self, name: &str, description: &str, handler: H)
        requires
            old(self).wf(),
        ensures
            final(self).wf(),
            final(self).descriptions() == old(self).descriptions().insert(
                spec_to_lowercase(name@),
                description@,
            ),
            final(self).handler(spec_to_lowercase(name@)) == handler,
            forall|n: Seq<char>|
                n != spec_to_lowercase(name@) && old(self).descriptions().contains_key(n)
                    ==> #[trigger] final(self).handler(n) == old(self).handler(n),
    {
        let key = to_lowercase(name);
        let ghost k = key@;
        let info = CommandInfo::new(description);
        self.commands.insert(key, (handler, info));
        proof {
            assert(self.descriptions() =~= old(self).descriptions().insert(k, description@));
            assert(is_lowered(k));
            assert(!has_ascii_upper(k));
        }
    }

    /// Whether a command of exactly this name is registered.
    pub fn has_command(&self, name: &str) -> (r: bool)
        requires
            self.wf(),
        ensures
            r == self.descriptions().contains_key(name@),
            has_ascii_upper(name@) ==> !r,
    {
        self.commands.contains_key(name)
    }

    /// Runs the handler registered under exactly `name`; `None` if there is none.
    pub fn execute(&self, channel: &str, chat_id: &str, name: &str, args: &str) -> (r: Option<String>)
        requires
            self.wf(),
            forall|n: Seq<char>, a: &str, b: &str, c: &str|
                self.descriptions().contains_key(n) ==> #[trigger] call_requires(self.handler(n), (a, b, c)),
        ensures
            !self.descriptions().contains_key(name@) ==> r is None,
            self.descriptions().contains_key(name@) ==> call_ensures(
                self.handler(name@),
                (channel, chat_id, args),
                r,
            ),
    {
        match self.commands.get(name) {
            Some(entry) => {
                let h = &entry.0;
                assert(self.descriptions().contains_key(name@));
                assert(call_requires(self.handler(name@), (channel, chat_id, args)));
                h(channel, chat_id, args)
            },
            None => None,
        }
    }

    /// All registered commands with their descriptions, sorted by name.
    pub fn list_commands(&self) -> (r: Vec<(String, String)>)
        requires
            self.wf(),
        ensures
            lists_commands(self.descriptions(), pair_views(r@)),
            sorted_by_name(pair_views(r@)),
            r@.len() == self.descriptions().len(),
            forall|i: int|
                0 <= i < r@.len() ==> self.descriptions().contains_key(#[trigger] r@[i].0@)
                    && self.descriptions()[r@[i].0@] == r@[i].1@,
            forall|n: Seq<char>|
                #[trigger] self.descriptions().contains_key(n) ==> exists|i: int|
                    0 <= i < r@.len() && r@[i].0@ == n,
    {
        let mut r: Vec<(String, String)> = Vec::new();
        let n = self.commands.len();
        let ghost keys = self.commands.key_seq();
        proof {
            self.commands.lemma_keys();
        }
        let mut i: usize = 0;
        while i < n
            invariant
                self.wf(),
                n == keys.len(),
                keys == self.commands.key_seq(),
                keys.no_duplicates(),
                i <= n,
                r@.len() == i,
                sorted_by_name(pair_views(r@)),
                forall|a: int|
                    0 <= a < r@.len() ==> self.descriptions().contains_key(#[trigger] r@[a].0@)
                        && self.descriptions()[r@[a].0@] == r@[a].1@
                        && exists|b: int| 0 <= b < i && keys[b] == r@[a].0@,
                forall|b: int| 0 <= b < i ==> exists|a: int| 0 <= a < r@.len() && #[trigger] keys[b] == r@[a].0@,
            decreases n - i,
        {
            let name = self.commands.key_at(i);
            let entry = self.commands.value_at(i);
            let ghost kn = keys[i as int];
            let nm = name.clone();
            let desc = entry.1.description.clone();
            // position: first index whose name sorts after `nm`
            let mut p: usize = 0;
            while p < r.len() && str_lt(r[p].0.as_str(), nm.as_str())
                invariant
                    p <= r@.len(),
                    forall|a: int| 0 <= a < p ==> lex_lt(#[trigger] r@[a].0@, nm@),
                    sorted_by_name(pair_views(r@)),
                decreases r@.len() - p,
            {
                p = p + 1;
            }
            proof {
                // nm is a new key: it differs from every name already placed
                assert forall|a: int| 0 <= a < r@.len() implies #[trigger] r@[a].0@ != nm@ by {
                    let b = choose|b: int| 0 <= b < i && keys[b] == r@[a].0@;
                    assert(keys[b] != keys[i as int]);
                }
                if p < r@.len() {
                    lemma_lex_total(r@[p as int].0@, nm@);
                    assert forall|a: int| p <= a < r@.len() implies lex_lt(nm@, #[trigger] r@[a].0@) by {
                        if a > p {
                            assert(pair_views(r@)[p as int].0 == r@[p as int].0@);
                            assert(pair_views(r@)[a].0 == r@[a].0@);
                            assert(lex_lt(r@[p as int].0@, r@[a].0@));
                            lemma_lex_transitive(nm@, r@[p as int].0@, r@[a].0@);
                        }
                    }
                }
            }
            let ghost old_r = r@;
            r.insert(p, (nm, desc));
            proof {
                let pr = pair_views(r@);
                assert forall|x: int, y: int| 0 <= x < y < pr.len() implies lex_lt(#[trigger] pr[x].0, #[trigger] pr[y].0) by {
                    let ox = if x < p { x } else { x - 1 };
                    let oy = if y < p { y } else { y - 1 };
                    if x == p {
                        assert(lex_lt(nm@, old_r[oy].0@));
                    } else if y == p {
                        assert(lex_lt(old_r[ox].0@, nm@));
                    } else {
                        assert(lex_lt(pair_views(old_r)[ox].0, pair_views(old_r)[oy].0));
                    }
                }
                assert forall|a: int|
                    0 <= a < r@.len() implies self.descriptions().contains_key(#[trigger] r@[a].0@)
                        && self.descriptions()[r@[a].0@] == r@[a].1@
                        && exists|b: int| 0 <= b < i + 1 && keys[b] == r@[a].0@ by {
                    if a == p {
                        assert(keys[i as int] == r@[a].0@);
                    } else {
                        let oa = if a < p { a } else { a - 1 };
                        assert(r@[a] == old_r[oa]);
                        let b = choose|b: int| 0 <= b < i && keys[b] == old_r[oa].0@;
                        assert(keys[b] == r@[a].0@);
                    }
                }
                assert forall|b: int| 0 <= b < i + 1 implies exists|a: int| 0 <= a < r@.len() && #[trigger] keys[b] == r@[a].0@ by {
                    if b == i {
                        assert(keys[b] == r@[p as int].0@);
                    } else {
                        let a = choose|a: int| 0 <= a < old_r.len() && keys[b] == old_r[a].0@;
                        let na = if a < p { a } else { a + 1 };
                        assert(keys[b] == r@[na].0@);
                    }
                }
            }
            i = i + 1;
        }
        proof {
            assert forall|k: Seq<char>| #[trigger] self.descriptions().contains_key(k) implies exists|a: int|
                0 <= a < r@.len() && r@[a].0@ == k by {
                assert(self.commands.view().dom().contains(k));
                assert(keys.to_set().contains(k));
                let b = choose|b: int| 0 <= b < keys.len() && keys[b] == k;
                assert(keys[b] == k);
            }
            assert(self.descriptions().dom() =~= self.commands.view().dom());
            assert(self.descriptions().len() == self.commands.view().len());
            let pv = pair_views(r@);
            assert forall|a: int| 0 <= a < pv.len() implies self.descriptions().contains_key(#[trigger] pv[a].0)
                && self.descriptions()[pv[a].0] == pv[a].1 by {
                assert(pv[a] == (r@[a].0@, r@[a].1@));
            }
            assert forall|k: Seq<char>| #[trigger] self.descriptions().contains_key(k) implies exists|a: int|
                0 <= a < pv.len() && pv[a].0 == k by {
                let a = choose|a: int| 0 <= a < r@.len() && r@[a].0@ == k;
                assert(pv[a].0 == k);
            }
        }
        r
    }

    /// Help text: the built-in commands first, then every other registered command.
    pub fn generate_help(&self) -> (r: String)
        requires
            self.wf(),
        ensures
            exists|l: Seq<(Seq<char>, Seq<char>)>| lists_commands(self.descriptions(), l) && r@ == help_text(l),
    {
        let listed = self.list_commands();
        let mut lines: Vec<String> = Vec::new();
        lines.push(to_string("Available commands:"));
        lines.push(to_string("/help - Show available commands"));
        lines.push(to_string("/clear - Clear conversation history"));
        let ghost head = views(lines@);
        assert(head =~= seq!["Available commands:"@, "/help - Show available commands"@, "/clear - Clear conversation history"@]);
        let mut i: usize = 0;
        while i < listed.len()
            invariant
                i <= listed@.len(),
                views(lines@) == head + command_lines(pair_views(listed@).take(i as int)),
            decreases listed@.len() - i,
        {
            let name = &listed[i].0;
            let desc = &listed[i].1;
            let ghost pv = pair_views(listed@);
            proof {
                assert(pv.take(i + 1).drop_last() == pv.take(i as int));
                assert(pv.take(i + 1).last() == (name@, desc@));
            }
            if !str_eq(name.as_str(), "help") && !str_eq(name.as_str(), "clear") {
                let line = concat4("/", name.as_str(), " - ", desc.as_str());
                let ghost old_lines = lines@;
                lines.push(line);
                proof {
                    assert(views(lines@) == views(old_lines).push(line@));
                }
            }
            i = i + 1;
        }
        let ghost mid = lines@;
        lines.push(String::new());
        let ghost mid2 = lines@;
        lines.push(to_string("Use /<command> to invoke a command."));
        let r = join(&lines, "\n");
        proof {
            let pv = pair_views(listed@);
            reveal_strlit("");
            assert(""@ =~= Seq::<char>::empty());
            assert(pv.take(listed@.len() as int) == pv);
            assert(views(mid) == head + command_lines(pv));
            assert(views(mid2) == views(mid).push(Seq::<char>::empty()));
            assert(views(lines@) == views(mid2).push("Use /<command> to invoke a command."@));
            assert(views(lines@) =~= seq!["Available commands:"@, "/help - Show available commands"@, "/clear - Clear conversation history"@]
                + command_lines(pv) + seq![""@, "Use /<command> to invoke a command."@]);
            assert(lists_commands(self.descriptions(), pv));
            assert(r@ == help_text(pv));
        }
        r
    }
}

} // verus!
