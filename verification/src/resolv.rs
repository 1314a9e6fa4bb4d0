//! The nameservers the container gets: read from the host's `resolv.conf`,
//! written into the container's.
use vstd::prelude::*;
use crate::constants::{DEFAULT_PING_TARGET, FALLBACK_NAMESERVER};
use crate::lexical::{
    contains_text, has_prefix, is_space, is_word, join, join_text, lemma_lines_acc_line,
    lemma_words_are_words, lemma_words_of_spaced, lines, lines_acc, lines_of, same_text,
    slice_string, strip_cr, word_at, words, words_of,
};
use crate::commands::push_text;

verus! {

/// The nameserver that a line of `resolv.conf` names: the first word after a
/// leading `nameserver `, unless that word is missing, a `127.` address or `::1`.
pub open spec fn nameserver_of(line: Seq<char>) -> Option<Seq<char>> {
    let prefix = "nameserver "@;
    if prefix.is_prefix_of(line) {
        let ns = word_at(line.subrange(prefix.len() as int, line.len() as int), 0);
        if ns.len() == 0 || "127."@.is_prefix_of(ns) || ns == "::1"@ {
            None
        } else {
            Some(ns)
        }
    } else {
        None
    }
}

/// The nameservers that `ls` name, in order, each once.
pub open spec fn nameservers_in(ls: Seq<Seq<char>>) -> Seq<Seq<char>>
    decreases ls.len(),
{
    if ls.len() == 0 {
        seq![]
    } else {
        let prev = nameservers_in(ls.drop_last());
        match nameserver_of(ls.last()) {
            Some(ns) => if prev.contains(ns) {
                prev
            } else {
                prev.push(ns)
            },
            None => prev,
        }
    }
}

/// The nameservers found in the host's `resolv.conf` (absent when it could not
/// be read), or the two fallback servers when none is found.
pub open spec fn nameserver_list(contents: Option<Seq<char>>) -> Seq<Seq<char>> {
    let found = match contents {
        Some(c) => nameservers_in(lines(c)),
        None => seq![],
    };
    if found.len() == 0 {
        seq![DEFAULT_PING_TARGET@, FALLBACK_NAMESERVER@]
    } else {
        found
    }
}

/// The nameservers for the container, separated by spaces.
pub open spec fn nameservers_text(contents: Option<Seq<char>>) -> Seq<char> {
    join(nameserver_list(contents), " "@)
}

/// The nameserver that the line `line` names, if any.
fn nameserver_in_line(line: &str) -> (r: Option<String>)
    ensures
        match r {
            Some(ns) => nameserver_of(line@) == Some(ns@),
            None => nameserver_of(line@) is None,
        },
{
    if !has_prefix(line, "nameserver ") {
        return None;
    }
    let skip = "nameserver ".unicode_len();
    let rest = slice_string(line, skip, line.unicode_len());
    let ws = words_of(rest.as_str());
    if ws.len() == 0 {
        assert(word_at(rest@, 0) =~= Seq::<char>::empty());
        return None;
    }
    let ns = ws[0].clone();
    if ns.as_str().is_empty() || has_prefix(ns.as_str(), "127.") || same_text(ns.as_str(), "::1") {
        None
    } else {
        Some(ns)
    }
}

/// The nameservers for the container, from the host's `resolv.conf` contents
/// (`None` when it could not be read), separated by spaces.
pub fn detect_nameservers(contents: Option<&str>) -> (r: String)
    ensures
        r@ == nameservers_text(
            match contents {
                Some(c) => Some(c@),
                None => None,
            },
        ),
{
    let mut servers: Vec<String> = Vec::new();
    if let Some(c) = contents {
        let ls = lines_of(c);
        let ghost lv = ls.deep_view();
        assert(lv.take(0) =~= Seq::<Seq<char>>::empty());
        for i in 0..ls.len()
            invariant
                lv == ls.deep_view(),
                lv == lines(c@),
                servers.deep_view() == nameservers_in(lv.take(i as int)),
        {
            assert(lv.take(i + 1).drop_last() =~= lv.take(i as int));
            assert(lv.take(i + 1).last() == lv[i as int]);
            if let Some(ns) = nameserver_in_line(ls[i].as_str()) {
                if !contains_text(&servers, ns.as_str()) {
                    let ghost before = servers.deep_view();
                    servers.push(ns);
                    assert(servers.deep_view() =~= before.push(ns@));
                }
            }
        }
        assert(lv.take(ls.len() as int) =~= lv);
    } else {
        assert(servers.deep_view() =~= Seq::<Seq<char>>::empty());
    }
    if servers.len() == 0 {
        push_text(&mut servers, DEFAULT_PING_TARGET);
        push_text(&mut servers, FALLBACK_NAMESERVER);
        assert(servers.deep_view() =~= seq![DEFAULT_PING_TARGET@, FALLBACK_NAMESERVER@]);
    }
    join_text(&servers, " ")
}

/// The `resolv.conf` that lists `servers`, one `nameserver` line each.
pub open spec fn resolv_text(servers: Seq<Seq<char>>) -> Seq<char>
    decreases servers.len(),
{
    if servers.len() == 0 {
        seq![]
    } else {
        resolv_text(servers.drop_last()) + "nameserver "@ + servers.last() + "\n"@
    }
}

/// The container's `resolv.conf`: a `nameserver` line for each word of
/// `nameservers`.
pub fn resolv_conf_content(nameservers: &str) -> (r: String)
    ensures
        r@ == resolv_text(words(nameservers@)),
{
    let ws = words_of(nameservers);
    let ghost wv = ws.deep_view();
    let mut content = String::new();
    assert(wv.take(0) =~= Seq::<Seq<char>>::empty());
    for i in 0..ws.len()
        invariant
            wv == ws.deep_view(),
            wv == words(nameservers@),
            content@ == resolv_text(wv.take(i as int)),
    {
        assert(wv.take(i + 1).drop_last() =~= wv.take(i as int));
        assert(wv.take(i + 1).last() == ws[i as int]@);
        content.append("nameserver ");
        content.append(ws[i].as_str());
        content.append("\n");
    }
    assert(wv.take(ws.len() as int) =~= wv);
    content
}

/// Whether `n` can stand as a nameserver: one word, not a loopback address.
pub open spec fn usable_nameserver(n: Seq<char>) -> bool {
    is_word(n) && !"127."@.is_prefix_of(n) && n != "::1"@
}

/// The line of `resolv.conf` that names `n`.
pub open spec fn nameserver_line(n: Seq<char>) -> Seq<char> {
    "nameserver "@ + n
}

proof fn lemma_nameservers_in_usable(ls: Seq<Seq<char>>)
    ensures
        nameservers_in(ls).no_duplicates(),
        forall|k: int|
            0 <= k < nameservers_in(ls).len() ==> usable_nameserver(
                #[trigger] nameservers_in(ls)[k],
            ),
    decreases ls.len(),
{
    if ls.len() > 0 {
        lemma_nameservers_in_usable(ls.drop_last());
        let prev = nameservers_in(ls.drop_last());
        let line = ls.last();
        if let Some(ns) = nameserver_of(line) {
            if !prev.contains(ns) {
                let rest = line.subrange("nameserver "@.len() as int, line.len() as int);
                lemma_words_are_words(rest);
                assert(ns == words(rest)[0]);
                let next = prev.push(ns);
                assert forall|i: int, j: int|
                    0 <= i < next.len() && 0 <= j < next.len() && i != j implies next[i]
                    != next[j] by {
                    if i == prev.len() as int {
                        assert(prev[j] == next[j]);
                    } else if j == prev.len() as int {
                        assert(prev[i] == next[i]);
                    }
                }
                assert forall|k: int| 0 <= k < next.len() implies usable_nameserver(
                    #[trigger] next[k],
                ) by {
                    if k < prev.len() {
                        assert(next[k] == prev[k]);
                    }
                }
            }
        }
    }
}

/// The nameservers for the container are usable and none is listed twice.
pub proof fn lemma_nameserver_list_usable(contents: Option<Seq<char>>)
    ensures
        nameserver_list(contents).len() > 0,
        nameserver_list(contents).no_duplicates(),
        forall|k: int|
            0 <= k < nameserver_list(contents).len() ==> usable_nameserver(
                #[trigger] nameserver_list(contents)[k],
            ),
{
    match contents {
        Some(c) => lemma_nameservers_in_usable(lines(c)),
        None => {},
    }
    let found = match contents {
        Some(c) => nameservers_in(lines(c)),
        None => seq![],
    };
    if found.len() == 0 {
        reveal_strlit("1.1.1.1");
        reveal_strlit("8.8.8.8");
        reveal_strlit("127.");
        reveal_strlit("::1");
        let l = nameserver_list(contents);
        assert(l =~= seq!["1.1.1.1"@, "8.8.8.8"@]);
        assert(!is_space('1') && !is_space('.') && !is_space('8'));
        assert(usable_nameserver("1.1.1.1"@)) by {
            assert("1.1.1.1"@[1] != "127."@[1]);
        }
        assert(usable_nameserver("8.8.8.8"@)) by {
            assert("8.8.8.8"@[0] != "127."@[0]);
        }
        assert("1.1.1.1"@[0] != "8.8.8.8"@[0]);
    }
}

proof fn lemma_lines_of_resolv(servers: Seq<Seq<char>>, rest: Seq<char>)
    requires
        forall|k: int| 0 <= k < servers.len() ==> is_word(#[trigger] servers[k]),
    ensures
        lines_acc(resolv_text(servers) + rest, seq![]) == servers.map_values(
            |n: Seq<char>| nameserver_line(n),
        ) + lines_acc(rest, seq![]),
    decreases servers.len(),
{
    reveal_strlit("\n");
    reveal_strlit("nameserver ");
    if servers.len() == 0 {
        assert(resolv_text(servers) + rest =~= rest);
        assert(servers.map_values(|n: Seq<char>| nameserver_line(n)) =~= Seq::<Seq<char>>::empty());
        assert(Seq::<Seq<char>>::empty() + lines_acc(rest, seq![]) =~= lines_acc(rest, seq![]));
    } else {
        let init = servers.drop_last();
        let last = servers.last();
        assert(is_word(servers[servers.len() - 1]));
        assert forall|k: int| 0 <= k < init.len() implies is_word(#[trigger] init[k]) by {
            assert(init[k] == servers[k]);
        }
        let x = nameserver_line(last);
        assert forall|i: int| 0 <= i < x.len() implies x[i] != '\n' by {
            if i >= "nameserver "@.len() {
                assert(x[i] == last[i - "nameserver "@.len()]);
                assert(!is_space(last[i - "nameserver "@.len()]));
            }
        }
        let rest2 = x + seq!['\n'] + rest;
        assert(servers =~= init.push(last));
        lemma_nameservers_resolv_step(init, last, rest);
        assert(resolv_text(servers) + rest == resolv_text(init) + rest2);
        lemma_lines_of_resolv(init, rest2);
        lemma_lines_acc_line(x, rest, seq![]);
        assert(x.last() == last.last());
        assert(!is_space(last[last.len() - 1]));
        assert(strip_cr(Seq::<char>::empty() + x) =~= x);
        assert(servers.map_values(|n: Seq<char>| nameserver_line(n)) =~= init.map_values(
            |n: Seq<char>| nameserver_line(n),
        ).push(x));
        assert(init.map_values(|n: Seq<char>| nameserver_line(n)).push(x) + lines_acc(
            rest,
            seq![],
        ) =~= init.map_values(|n: Seq<char>| nameserver_line(n)) + (seq![x] + lines_acc(
            rest,
            seq![],
        )));
    }
}

proof fn lemma_nameservers_resolv_step(init: Seq<Seq<char>>, last: Seq<char>, rest: Seq<char>)
    ensures
        resolv_text(init.push(last)) + rest == resolv_text(init) + (nameserver_line(last) + seq![
            '\n',
        ] + rest),
{
    reveal_strlit("\n");
    assert(init.push(last).drop_last() =~= init);
    assert("\n"@ =~= seq!['\n']);
    assert(resolv_text(init.push(last)) + rest =~= resolv_text(init) + (nameserver_line(last)
        + seq!['\n'] + rest));
}

proof fn lemma_nameserver_of_line(n: Seq<char>)
    requires
        usable_nameserver(n),
    ensures
        nameserver_of(nameserver_line(n)) == Some(n),
{
    let line = nameserver_line(n);
    let prefix = "nameserver "@;
    assert(line.subrange(0, prefix.len() as int) =~= prefix);
    assert(line.subrange(prefix.len() as int, line.len() as int) =~= n);
    lemma_words_of_spaced(seq![n]);
    assert(join(seq![n], " "@) == n);
}

proof fn lemma_nameservers_of_lines(servers: Seq<Seq<char>>)
    requires
        servers.no_duplicates(),
        forall|k: int| 0 <= k < servers.len() ==> usable_nameserver(#[trigger] servers[k]),
    ensures
        nameservers_in(servers.map_values(|n: Seq<char>| nameserver_line(n))) == servers,
    decreases servers.len(),
{
    let ls = servers.map_values(|n: Seq<char>| nameserver_line(n));
    if servers.len() > 0 {
        let init = servers.drop_last();
        let last = servers.last();
        assert(usable_nameserver(servers[servers.len() - 1]));
        assert forall|k: int| 0 <= k < init.len() implies usable_nameserver(#[trigger] init[k]) by {
            assert(init[k] == servers[k]);
        }
        assert(init.no_duplicates()) by {
            assert forall|i: int, j: int|
                0 <= i < init.len() && 0 <= j < init.len() && i != j implies init[i]
                != init[j] by {
                assert(init[i] == servers[i] && init[j] == servers[j]);
            }
        }
        lemma_nameservers_of_lines(init);
        assert(ls.drop_last() =~= init.map_values(|n: Seq<char>| nameserver_line(n)));
        assert(ls.last() == nameserver_line(last));
        lemma_nameserver_of_line(last);
        assert(!init.contains(last)) by {
            if init.contains(last) {
                let i = choose|i: int| 0 <= i < init.len() && init[i] == last;
                assert(servers[i] == servers[servers.len() - 1]);
            }
        }
        assert(init.push(last) =~= servers);
    } else {
        assert(ls =~= Seq::<Seq<char>>::empty());
    }
}

/// The container's `resolv.conf`, read back the way the host's is read,
/// gives the same nameservers: the nameservers survive the copy.
pub proof fn lemma_resolv_round_trip(contents: Option<Seq<char>>)
    ensures
        nameservers_text(Some(resolv_text(words(nameservers_text(contents)))))
            == nameservers_text(contents),
{
    let servers = nameserver_list(contents);
    lemma_nameserver_list_usable(contents);
    assert forall|k: int| 0 <= k < servers.len() implies is_word(#[trigger] servers[k]) by {
        assert(usable_nameserver(servers[k]));
    }
    lemma_words_of_spaced(servers);
    lemma_lines_of_resolv(servers, seq![]);
    assert(resolv_text(servers) + Seq::<char>::empty() =~= resolv_text(servers));
    let ls = servers.map_values(|n: Seq<char>| nameserver_line(n));
    assert(lines_acc(Seq::<char>::empty(), seq![]) =~= Seq::<Seq<char>>::empty());
    assert(ls + Seq::<Seq<char>>::empty() =~= ls);
    lemma_nameservers_of_lines(servers);
}

} // verus!
