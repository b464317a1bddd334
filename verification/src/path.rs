//! Counter paths: the rendered form `\\host\object(instance)\counter`,
//! its construction, parsing, and syntactic validation.
//!
//! The `\\host` segment is omitted when no host is given, and the
//! `(instance)` segment is omitted when the instance is the empty string:
//! an empty instance names a single-instance object and is never rendered
//! as an empty pair of parentheses.

use vstd::prelude::*;

verus! {

/// One fully qualified counter path, as plain segments.
///
/// `object` and `counter` never contain the path separator; `instance` may
/// be empty, which renders as no parenthesized segment at all.
pub struct CounterPath {
    /// Machine to read from; none means the local machine.
    pub host: Option<String>,
    /// The counter object, such as a memory or processor category.
    pub object: String,
    /// The instance within the object; empty for single-instance objects.
    pub instance: String,
    /// The counter's own name within the object.
    pub counter: String,
}

/// The rendered parenthesized instance segment: empty when the instance is.
pub open spec fn spec_instance_part(instance: Seq<char>) -> Seq<char> {
    if instance.len() == 0 {
        Seq::<char>::empty()
    } else {
        seq!['('] + instance + seq![')']
    }
}

/// The rendered host prefix: empty when no host is given.
pub open spec fn spec_host_part(host: Option<Seq<char>>) -> Seq<char> {
    match host {
        Some(h) => seq!['\\', '\\'] + h,
        None => Seq::<char>::empty(),
    }
}

/// The rendered form of a path built from its four segments.
pub open spec fn spec_rendered(
    host: Option<Seq<char>>,
    object: Seq<char>,
    instance: Seq<char>,
    counter: Seq<char>,
) -> Seq<char> {
    spec_host_part(host) + seq!['\\'] + object + spec_instance_part(instance) + seq!['\\']
        + counter
}

impl CounterPath {
    /// The view of the optional host as an optional character sequence.
    pub open spec fn host_view(&self) -> Option<Seq<char>> {
        match self.host {
            Some(h) => Some(h@),
            None => None,
        }
    }

    /// The rendered form of this path.
    pub open spec fn rendered(&self) -> Seq<char> {
        spec_rendered(self.host_view(), self.object@, self.instance@, self.counter@)
    }
}

/// Builds the rendered form of a counter path. Pure and total: every
/// combination of segments renders.
pub fn render_counter_path(path: &CounterPath) -> (r: String)
    ensures
        r@ == path.rendered(),
{
    proof {
        reveal_strlit("\\");
        reveal_strlit("\\\\");
        reveal_strlit("(");
        reveal_strlit(")");
        assert(("\\")@ =~= seq!['\\']);
        assert(("\\\\")@ =~= seq!['\\', '\\']);
        assert(("(")@ =~= seq!['(']);
        assert((")")@ =~= seq![')']);
    }
    let mut s = String::new();
    match &path.host {
        Some(h) => {
            s.append("\\\\");
            s.append(h.as_str());
        },
        None => {},
    }
    s.append("\\");
    s.append(path.object.as_str());
    if !path.instance.as_str().is_empty() {
        s.append("(");
        s.append(path.instance.as_str());
        s.append(")");
    }
    s.append("\\");
    s.append(path.counter.as_str());
    proof {
        assert(s@ =~= path.rendered());
    }
    s
}

/// The index of the last occurrence of a character, or -1 if it is absent.
pub open spec fn last_index_of(s: Seq<char>, c: char) -> int
    decreases s.len(),
{
    if s.len() == 0 {
        -1
    } else if s.last() == c {
        s.len() - 1
    } else {
        last_index_of(s.drop_last(), c)
    }
}

/// The index of the first occurrence of a character, or -1 if it is absent.
pub open spec fn first_index_of(s: Seq<char>, c: char) -> int
    decreases s.len(),
{
    if s.len() == 0 {
        -1
    } else if s[0] == c {
        0
    } else {
        let r = first_index_of(s.drop_first(), c);
        if r == -1 {
            -1
        } else {
            1 + r
        }
    }
}

/// What `last_index_of` returns: the position of the last occurrence.
pub proof fn lemma_last_index_of(s: Seq<char>, c: char)
    ensures
        -1 <= last_index_of(s, c) < s.len(),
        last_index_of(s, c) >= 0 ==> s[last_index_of(s, c)] == c,
        forall|j: int| last_index_of(s, c) < j < s.len() ==> s[j] != c,
    decreases s.len(),
{
    if s.len() == 0 {
    } else if s.last() == c {
    } else {
        lemma_last_index_of(s.drop_last(), c);
        assert forall|j: int| last_index_of(s, c) < j < s.len() implies s[j] != c by {
            if j < s.len() - 1 {
                assert(s.drop_last()[j] == s[j]);
            }
        }
        if last_index_of(s, c) >= 0 {
            assert(s.drop_last()[last_index_of(s, c)] == s[last_index_of(s, c)]);
        }
    }
}

/// What `first_index_of` returns: the position of the first occurrence.
pub proof fn lemma_first_index_of(s: Seq<char>, c: char)
    ensures
        -1 <= first_index_of(s, c) < s.len(),
        first_index_of(s, c) >= 0 ==> s[first_index_of(s, c)] == c,
        forall|j: int| 0 <= j < first_index_of(s, c) ==> s[j] != c,
        first_index_of(s, c) == -1 ==> forall|j: int| 0 <= j < s.len() ==> s[j] != c,
    decreases s.len(),
{
    if s.len() == 0 {
    } else if s[0] == c {
    } else {
        lemma_first_index_of(s.drop_first(), c);
        assert forall|j: int| 0 <= j < first_index_of(s, c) implies s[j] != c by {
            if j >= 1 {
                assert(s.drop_first()[j - 1] == s[j]);
            }
        }
        if first_index_of(s, c) == -1 {
            assert forall|j: int| 0 <= j < s.len() implies s[j] != c by {
                if j >= 1 {
                    assert(s.drop_first()[j - 1] == s[j]);
                }
            }
        } else {
            assert(s.drop_first()[first_index_of(s, c) - 1] == s[first_index_of(s, c)]);
        }
    }
}

/// The instance token of a rendered path: the characters between the last
/// `(` that still has a `)` somewhere after it and the last `)` of the whole
/// path, or the empty string when no such pair exists. An instance name that
/// itself contains parentheses is a known ambiguity of the rendered form;
/// this takes the last parenthesized group.
pub open spec fn spec_parse_instance(s: Seq<char>) -> Seq<char> {
    let q = last_index_of(s, ')');
    if q >= 0 {
        let p = last_index_of(s.take(q), '(');
        if p >= 0 {
            s.subrange(p + 1, q)
        } else {
            Seq::<char>::empty()
        }
    } else {
        Seq::<char>::empty()
    }
}

/// Scans backwards for the last occurrence of a character strictly before
/// `end`, reporting its index.
fn find_last(s: &str, end: usize, c: char) -> (r: Option<usize>)
    requires
        end <= s@.len(),
    ensures
        r matches Some(k) ==> k < end && last_index_of(s@.take(end as int), c) == k as int,
        r is None ==> last_index_of(s@.take(end as int), c) == -1,
{
    proof {
        lemma_last_index_of(s@.take(end as int), c);
    }
    let mut k = end;
    while k > 0
        invariant
            end <= s@.len(),
            k <= end,
            forall|j: int| k <= j < end ==> s@[j] != c,
        decreases k,
    {
        k -= 1;
        if s.get_char(k) == c {
            proof {
                lemma_last_index_of(s@.take(end as int), c);
                assert(s@.take(end as int)[k as int] == s@[k as int]);
                assert forall|j: int| k < j < end implies s@.take(end as int)[j] != c by {
                    assert(s@.take(end as int)[j] == s@[j]);
                }
                let r = last_index_of(s@.take(end as int), c);
                if r < k as int {
                    assert(s@.take(end as int)[k as int] != c);
                }
                if r > k as int {
                    assert(s@.take(end as int)[r] != c);
                }
            }
            return Some(k);
        }
    }
    proof {
        let r = last_index_of(s@.take(end as int), c);
        if r >= 0 {
            assert(s@.take(end as int)[r] == s@[r]);
        }
    }
    None
}

/// Scans forwards for the first occurrence of a character at or after
/// `start`, reporting its index.
fn find_first_from(s: &str, start: usize, c: char) -> (r: Option<usize>)
    requires
        start <= s@.len(),
    ensures
        r matches Some(k) ==> start <= k < s@.len() && first_index_of(s@.skip(start as int), c)
            == k - start,
        r is None ==> first_index_of(s@.skip(start as int), c) == -1,
{
    proof {
        lemma_first_index_of(s@.skip(start as int), c);
    }
    let n = s.unicode_len();
    let mut k = start;
    while k < n
        invariant
            start <= k <= n,
            n == s@.len(),
            forall|j: int| start <= j < k ==> s@[j] != c,
        decreases n - k,
    {
        if s.get_char(k) == c {
            proof {
                lemma_first_index_of(s@.skip(start as int), c);
                assert(s@.skip(start as int)[k - start] == s@[k as int]);
                assert forall|j: int| 0 <= j < k - start implies s@.skip(start as int)[j]
                    != c by {
                    assert(s@.skip(start as int)[j] == s@[j + start]);
                }
                let r = first_index_of(s@.skip(start as int), c);
                if 0 <= r < k - start {
                    assert(s@.skip(start as int)[r] != c);
                }
                if r > k - start {
                    assert(s@.skip(start as int)[k - start] != c);
                }
            }
            return Some(k);
        }
        k += 1;
    }
    proof {
        let r = first_index_of(s@.skip(start as int), c);
        if r >= 0 {
            assert(s@.skip(start as int)[r] == s@[r + start]);
        }
    }
    None
}

/// Extracts the parenthesized instance token from a rendered path, or the
/// empty string if there is none. Used to label wildcard-expanded paths.
pub fn parse_instance(path: &str) -> (r: String)
    ensures
        r@ == spec_parse_instance(path@),
{
    let n = path.unicode_len();
    proof {
        assert(path@.take(n as int) =~= path@);
    }
    let q = match find_last(path, n, ')') {
        Some(q) => q,
        None => {
            return String::new();
        },
    };
    let p = match find_last(path, q, '(') {
        Some(p) => p,
        None => {
            return String::new();
        },
    };
    let token = path.substring_char(p + 1, q);
    token.to_owned()
}

/// Parses the host-free body `\object[(instance)]\counter` of a rendered
/// path into its segments, or nothing if the body breaks the grammar: the
/// separator must open the body and occur exactly twice, object and counter
/// must be non-empty, and a parenthesized instance must be non-empty and
/// close at the body's final separator.
pub open spec fn spec_parse_body(rest: Seq<char>) -> Option<(Seq<char>, Seq<char>, Seq<char>)> {
    if rest.len() == 0 || rest[0] != '\\' {
        None
    } else {
        let j = last_index_of(rest, '\\');
        if j < 1 || last_index_of(rest.take(j), '\\') != 0 {
            None
        } else {
            let objinst = rest.subrange(1, j);
            let counter = rest.subrange(j + 1, rest.len() as int);
            if counter.len() == 0 || objinst.len() == 0 {
                None
            } else {
                let p = first_index_of(objinst, '(');
                if p == -1 {
                    Some((objinst, Seq::<char>::empty(), counter))
                } else if p >= 1 && objinst.last() == ')' && p + 1 < objinst.len() - 1 {
                    Some(
                        (
                            objinst.take(p),
                            objinst.subrange(p + 1, objinst.len() - 1),
                            counter,
                        ),
                    )
                } else {
                    None
                }
            }
        }
    }
}

/// Parses a rendered counter path into its segments, or nothing if the path
/// breaks the grammar. A path that opens with two separators carries a
/// non-empty host up to the next separator; the rest is the host-free body.
pub open spec fn spec_parse_counter_path(s: Seq<char>) -> Option<
    (Option<Seq<char>>, Seq<char>, Seq<char>, Seq<char>),
> {
    if s.len() >= 2 && s[0] == '\\' && s[1] == '\\' {
        let k = first_index_of(s.skip(2), '\\');
        if k == -1 || k == 0 {
            None
        } else {
            let host = s.subrange(2, k + 2);
            match spec_parse_body(s.skip(k + 2)) {
                Some(t) => Some((Some(host), t.0, t.1, t.2)),
                None => None,
            }
        }
    } else {
        match spec_parse_body(s) {
            Some(t) => Some((None, t.0, t.1, t.2)),
            None => None,
        }
    }
}

/// Parses the host-free body of a path, handing back owned segments.
fn parse_body(body: &str) -> (r: Option<(String, String, String)>)
    ensures
        (r is Some) == (spec_parse_body(body@) is Some),
        r is Some ==> {
            let t = spec_parse_body(body@)->Some_0;
            &&& r->Some_0.0@ == t.0
            &&& r->Some_0.1@ == t.1
            &&& r->Some_0.2@ == t.2
        },
{
    let m = body.unicode_len();
    if m == 0 || body.get_char(0) != '\\' {
        return None;
    }
    proof {
        assert(body@.take(m as int) =~= body@);
    }
    let j = match find_last(body, m, '\\') {
        Some(j) => j,
        None => {
            proof {
                lemma_last_index_of(body@.take(m as int), '\\');
                assert(body@.take(m as int)[0] == '\\');
            }
            return None;
        },
    };
    if j == 0 || j == 1 {
        return None;
    }
    match find_last(body, j, '\\') {
        Some(k) => {
            if k != 0 {
                return None;
            }
        },
        None => {
            proof {
                lemma_last_index_of(body@.take(j as int), '\\');
                assert(body@.take(j as int)[0] == '\\');
            }
            return None;
        },
    }
    if j + 1 >= m {
        return None;
    }
    let objinst = body.substring_char(1, j);
    let counter = body.substring_char(j + 1, m);
    let ghost spec_objinst = body@.subrange(1, j as int);
    let ghost spec_counter = body@.subrange(j + 1, body@.len() as int);
    proof {
        assert(objinst@ == spec_objinst);
        assert(counter@ == spec_counter);
        assert(spec_counter.len() > 0);
        assert(spec_objinst.len() > 0);
    }
    let objlen = objinst.unicode_len();
    match find_first_from(objinst, 0, '(') {
        None => {
            proof {
                assert(objinst@.skip(0) =~= objinst@);
            }
            Some((objinst.to_owned(), String::new(), counter.to_owned()))
        },
        Some(p) => {
            proof {
                assert(objinst@.skip(0) =~= objinst@);
            }
            if p >= 1 && objinst.get_char(objlen - 1) == ')' && p + 1 < objlen - 1 {
                let object = objinst.substring_char(0, p);
                let instance = objinst.substring_char(p + 1, objlen - 1);
                proof {
                    assert(object@ =~= objinst@.take(p as int));
                }
                Some((object.to_owned(), instance.to_owned(), counter.to_owned()))
            } else {
                None
            }
        },
    }
}

/// Parses a rendered counter path into its segments, or nothing if the path
/// breaks the grammar of `spec_parse_counter_path`.
pub fn parse_counter_path(path: &str) -> (r: Option<CounterPath>)
    ensures
        (r is Some) == (spec_parse_counter_path(path@) is Some),
        r is Some ==> {
            let t = spec_parse_counter_path(path@)->Some_0;
            &&& r->Some_0.host_view() == t.0
            &&& r->Some_0.object@ == t.1
            &&& r->Some_0.instance@ == t.2
            &&& r->Some_0.counter@ == t.3
        },
{
    let n = path.unicode_len();
    if n >= 2 && path.get_char(0) == '\\' && path.get_char(1) == '\\' {
        let h = match find_first_from(path, 2, '\\') {
            Some(h) => h,
            None => {
                return None;
            },
        };
        if h == 2 {
            return None;
        }
        let host = path.substring_char(2, h);
        let body = path.substring_char(h, n);
        proof {
            assert(first_index_of(path@.skip(2), '\\') == h - 2);
            assert(host@ =~= path@.subrange(2, (h - 2) + 2));
            assert(body@ =~= path@.skip((h - 2) + 2));
        }
        match parse_body(body) {
            Some(t) => Some(
                CounterPath {
                    host: Some(host.to_owned()),
                    object: t.0,
                    instance: t.1,
                    counter: t.2,
                },
            ),
            None => None,
        }
    } else {
        match parse_body(path) {
            Some(t) => Some(
                CounterPath { host: None, object: t.0, instance: t.1, counter: t.2 },
            ),
            None => None,
        }
    }
}

/// Putting a parsed body's segments back together gives the body back.
proof fn lemma_parse_body_recompose(rest: Seq<char>)
    requires
        spec_parse_body(rest) is Some,
    ensures
        ({
            let t = spec_parse_body(rest)->Some_0;
            seq!['\\'] + t.0 + spec_instance_part(t.1) + seq!['\\'] + t.2 =~= rest
        }),
{
    let j = last_index_of(rest, '\\');
    lemma_last_index_of(rest, '\\');
    let objinst = rest.subrange(1, j);
    let counter = rest.subrange(j + 1, rest.len() as int);
    let p = first_index_of(objinst, '(');
    lemma_first_index_of(objinst, '(');
    assert(rest[j] == '\\');
    if p == -1 {
        assert(seq!['\\'] + objinst + spec_instance_part(Seq::<char>::empty()) + seq!['\\']
            + counter =~= rest);
    } else {
        let object = objinst.take(p);
        let instance = objinst.subrange(p + 1, objinst.len() - 1);
        assert(objinst[p] == '(');
        assert(objinst[objinst.len() - 1] == ')');
        assert(instance.len() > 0);
        assert(objinst =~= object + seq!['('] + instance + seq![')']);
        assert(spec_instance_part(instance) =~= seq!['('] + instance + seq![')']);
        assert(seq!['\\'] + object + spec_instance_part(instance) + seq!['\\'] + counter
            =~= rest);
    }
}

/// Law: rendering what a path parsed into reproduces the path exactly, for
/// every path the grammar accepts.
pub proof fn lemma_parse_render_round_trip(s: Seq<char>)
    requires
        spec_parse_counter_path(s) is Some,
    ensures
        ({
            let t = spec_parse_counter_path(s)->Some_0;
            spec_rendered(t.0, t.1, t.2, t.3) == s
        }),
{
    if s.len() >= 2 && s[0] == '\\' && s[1] == '\\' {
        let k = first_index_of(s.skip(2), '\\');
        lemma_first_index_of(s.skip(2), '\\');
        let host = s.subrange(2, k + 2);
        let body = s.skip(k + 2);
        lemma_parse_body_recompose(body);
        let t = spec_parse_body(body)->Some_0;
        assert(s =~= seq!['\\', '\\'] + host + body);
        assert(spec_host_part(Some(host)) =~= seq!['\\', '\\'] + host);
        assert(spec_rendered(Some(host), t.0, t.1, t.2) =~= s);
    } else {
        lemma_parse_body_recompose(s);
        let t = spec_parse_body(s)->Some_0;
        assert(spec_host_part(None) =~= Seq::<char>::empty());
        assert(spec_rendered(None, t.0, t.1, t.2) =~= s);
    }
}

/// The last occurrence in `a + [c] + b` is the marked one when `b` is free
/// of the character.
proof fn lemma_last_index_of_compose(a: Seq<char>, b: Seq<char>, c: char)
    requires
        !b.contains(c),
    ensures
        last_index_of(a + seq![c] + b, c) == a.len(),
    decreases b.len(),
{
    let s = a + seq![c] + b;
    if b.len() == 0 {
        assert(s.last() == c);
    } else {
        assert(s.last() == b.last());
        assert(b.contains(b.last()));
        assert(s.last() != c);
        assert(!b.drop_last().contains(c)) by {
            assert forall|i: int| 0 <= i < b.drop_last().len() implies b.drop_last()[i]
                != c by {
                assert(b.drop_last()[i] == b[i]);
                assert(b[i] != c) by {
                    if b[i] == c {
                        assert(b.contains(c));
                    }
                }
            }
        }
        assert(s.drop_last() =~= a + seq![c] + b.drop_last());
        lemma_last_index_of_compose(a, b.drop_last(), c);
    }
}

/// The first occurrence in `a + [c] + b` is the marked one when `a` is free
/// of the character.
proof fn lemma_first_index_of_compose(a: Seq<char>, b: Seq<char>, c: char)
    requires
        !a.contains(c),
    ensures
        first_index_of(a + seq![c] + b, c) == a.len(),
    decreases a.len(),
{
    let s = a + seq![c] + b;
    if a.len() == 0 {
        assert(s[0] == c);
    } else {
        assert(s[0] == a[0]);
        assert(a.contains(a[0]));
        assert(s[0] != c);
        assert(!a.drop_first().contains(c)) by {
            assert forall|i: int| 0 <= i < a.drop_first().len() implies a.drop_first()[i]
                != c by {
                assert(a.drop_first()[i] == a[i + 1]);
                assert(a[i + 1] != c) by {
                    if a[i + 1] == c {
                        assert(a.contains(c));
                    }
                }
            }
        }
        assert(s.drop_first() =~= a.drop_first() + seq![c] + b);
        lemma_first_index_of_compose(a.drop_first(), b, c);
    }
}

/// A sequence free of a character has no first occurrence of it.
proof fn lemma_first_index_of_absent(s: Seq<char>, c: char)
    requires
        !s.contains(c),
    ensures
        first_index_of(s, c) == -1,
{
    lemma_first_index_of(s, c);
    if first_index_of(s, c) >= 0 {
        assert(s.contains(c)) by {
            assert(s[first_index_of(s, c)] == c);
        }
    }
}

/// Whether segments are fit to render: a rendered path built from them
/// parses back to exactly them. The object may not contain the separator or
/// an opening parenthesis, the other segments may not contain the
/// separator, and host, object and counter are non-empty.
pub open spec fn spec_renderable(
    host: Option<Seq<char>>,
    object: Seq<char>,
    instance: Seq<char>,
    counter: Seq<char>,
) -> bool {
    &&& object.len() > 0
    &&& !object.contains('\\')
    &&& !object.contains('(')
    &&& counter.len() > 0
    &&& !counter.contains('\\')
    &&& !instance.contains('\\')
    &&& (host matches Some(h) ==> h.len() > 0 && !h.contains('\\'))
}

/// The body of a rendered path parses back into its segments.
proof fn lemma_parse_body_of_render(object: Seq<char>, instance: Seq<char>, counter: Seq<char>)
    requires
        spec_renderable(None, object, instance, counter),
    ensures
        spec_parse_body(seq!['\\'] + object + spec_instance_part(instance) + seq!['\\'] + counter)
            == Some((object, instance, counter)),
{
    let objinst = object + spec_instance_part(instance);
    let rest = seq!['\\'] + object + spec_instance_part(instance) + seq!['\\'] + counter;
    assert(rest =~= (seq!['\\'] + objinst) + seq!['\\'] + counter);
    assert(!objinst.contains('\\')) by {
        if instance.len() == 0 {
            assert(objinst =~= object);
        } else {
            assert forall|i: int| 0 <= i < objinst.len() implies objinst[i] != '\\' by {
                if i < object.len() {
                    assert(objinst[i] == object[i]);
                    if object[i] == '\\' {
                        assert(object.contains('\\'));
                    }
                } else if i == object.len() {
                    assert(objinst[i] == '(');
                } else if i < object.len() + 1 + instance.len() {
                    assert(objinst[i] == instance[i - object.len() - 1]);
                    if instance[i - object.len() - 1] == '\\' {
                        assert(instance.contains('\\'));
                    }
                } else {
                    assert(objinst[i] == ')');
                }
            }
            if objinst.contains('\\') {
                let w = choose|w: int| 0 <= w < objinst.len() && objinst[w] == '\\';
                assert(objinst[w] != '\\');
            }
        }
    }
    lemma_last_index_of_compose(seq!['\\'] + objinst, counter, '\\');
    let j = last_index_of(rest, '\\');
    assert(j == 1 + objinst.len());
    assert(rest.take(j) =~= Seq::<char>::empty() + seq!['\\'] + objinst);
    lemma_last_index_of_compose(Seq::<char>::empty(), objinst, '\\');
    assert(last_index_of(rest.take(j), '\\') == 0);
    assert(rest.subrange(1, j) =~= objinst);
    assert(rest.subrange(j + 1, rest.len() as int) =~= counter);
    if instance.len() == 0 {
        assert(objinst =~= object);
        lemma_first_index_of_absent(objinst, '(');
        assert(spec_parse_body(rest) == Some((object, instance, counter)));
    } else {
        assert(objinst =~= object + seq!['('] + (instance + seq![')']));
        lemma_first_index_of_compose(object, instance + seq![')'], '(');
        let p = first_index_of(objinst, '(');
        assert(p == object.len());
        assert(objinst.last() == ')');
        assert(objinst.take(p) =~= object);
        assert(objinst.subrange(p + 1, objinst.len() - 1) =~= instance);
        assert(spec_parse_body(rest) == Some((object, instance, counter)));
    }
}

/// Law: a rendered path parses back into exactly the segments it was
/// rendered from, for all segments fit to render.
pub proof fn lemma_render_parse_round_trip(
    host: Option<Seq<char>>,
    object: Seq<char>,
    instance: Seq<char>,
    counter: Seq<char>,
)
    requires
        spec_renderable(host, object, instance, counter),
    ensures
        spec_parse_counter_path(spec_rendered(host, object, instance, counter)) == Some(
            (host, object, instance, counter),
        ),
{
    let body = seq!['\\'] + object + spec_instance_part(instance) + seq!['\\'] + counter;
    let s = spec_rendered(host, object, instance, counter);
    lemma_parse_body_of_render(object, instance, counter);
    match host {
        None => {
            assert(s =~= body);
            assert(s[0] == '\\');
            assert(s[1] == object[0]);
            assert(object.contains(object[0]));
            assert(s[1] != '\\');
            assert(spec_parse_body(s) == Some((object, instance, counter)));
        },
        Some(h) => {
            assert(s =~= seq!['\\', '\\'] + h + body);
            assert(s[0] == '\\');
            assert(s[1] == '\\');
            assert(s.skip(2) =~= h + seq!['\\'] + (object + spec_instance_part(instance)
                + seq!['\\'] + counter));
            lemma_first_index_of_compose(
                h,
                object + spec_instance_part(instance) + seq!['\\'] + counter,
                '\\',
            );
            let k = first_index_of(s.skip(2), '\\');
            assert(k == h.len());
            assert(k != 0);
            assert(s.subrange(2, k + 2) =~= h);
            assert(s.skip(k + 2) =~= body);
            assert(spec_parse_body(s.skip(k + 2)) == Some((object, instance, counter)));
            assert(spec_parse_counter_path(s) == Some((host, object, instance, counter)));
        },
    }
}

/// Checks a path against the rendered-form grammar. The syntactic check
/// that precedes any attempt to attach the path to a query.
pub fn validate_counter_path(path: &str) -> (r: bool)
    ensures
        r == (spec_parse_counter_path(path@) is Some),
{
    parse_counter_path(path).is_some()
}

} // verus!
