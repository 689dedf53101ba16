//! Environments of named string variables, and the substitution of
//! `{{identifier}}` placeholders by their values.
use crate::models::{RequestDefinition, ValidationError};
use crate::text::same_text;
use vstd::prelude::*;
use vstd::string::*;

verus! {

/// A named set of string variables, one name/value pair per variable.
#[derive(Clone, Debug, PartialEq, Eq)]
pub struct Environment {
    pub name: String,
    pub variables: Option<Vec<(String, String)>>,
}

/// Variables as name/value pairs of characters.
pub open spec fn vars_view(vars: Seq<(String, String)>) -> Seq<(Seq<char>, Seq<char>)> {
    vars.map_values(|p: (String, String)| (p.0@, p.1@))
}

pub open spec fn opt_vars_view(vars: Option<Vec<(String, String)>>) -> Option<Seq<(Seq<char>, Seq<char>)>> {
    match vars {
        Some(v) => Some(vars_view(v@)),
        None => None,
    }
}

/// The value of variable `key`: that of the first pair that names it.
pub open spec fn lookup(vars: Seq<(Seq<char>, Seq<char>)>, key: Seq<char>) -> Option<Seq<char>>
    decreases vars.len(),
{
    if vars.len() == 0 {
        None
    } else if vars[0].0 == key {
        Some(vars[0].1)
    } else {
        lookup(vars.drop_first(), key)
    }
}

/// A character that may stand in a placeholder's identifier: `[a-zA-Z0-9_]`.
pub open spec fn is_ident_char(c: char) -> bool {
    ('a' <= c && c <= 'z') || ('A' <= c && c <= 'Z') || ('0' <= c && c <= '9') || c == '_'
}

pub open spec fn is_identifier(s: Seq<char>) -> bool {
    s.len() > 0 && forall|i: int| 0 <= i < s.len() ==> is_ident_char(#[trigger] s[i])
}

/// The number of identifier characters at the start of `s`.
pub open spec fn ident_len(s: Seq<char>) -> nat
    decreases s.len(),
{
    if s.len() > 0 && is_ident_char(s[0]) {
        1 + ident_len(s.drop_first())
    } else {
        0
    }
}

/// The text `{{name}}`.
pub open spec fn placeholder_text(name: Seq<char>) -> Seq<char> {
    seq!['{', '{'] + name + seq!['}', '}']
}

/// The length of the placeholder `{{identifier}}` that `s` starts with, or 0
/// where it starts with none.
pub open spec fn placeholder_len(s: Seq<char>) -> nat {
    let n = ident_len(s.subrange(2, s.len() as int));
    if s.len() >= 2 && s[0] == '{' && s[1] == '{' && n > 0 && s.len() >= n + 4 && s[n + 2 as int] == '}'
        && s[n + 3 as int] == '}' {
        n + 4
    } else {
        0
    }
}

/// `t` with each placeholder, scanned from the left without overlap,
/// replaced by its variable's value; a placeholder whose variable is not set
/// stays as it is. Values are not scanned again.
pub open spec fn substitute(t: Seq<char>, vars: Seq<(Seq<char>, Seq<char>)>) -> Seq<char>
    decreases t.len(),
{
    if t.len() == 0 {
        seq![]
    } else if placeholder_len(t) > 0 {
        let p = placeholder_len(t) as int;
        let rest = substitute(t.subrange(p, t.len() as int), vars);
        match lookup(vars, t.subrange(2, p - 2)) {
            Some(v) => v + rest,
            None => t.subrange(0, p) + rest,
        }
    } else {
        seq![t[0]] + substitute(t.drop_first(), vars)
    }
}

/// What resolving `t` gives: `t` itself where no variables are active.
pub open spec fn resolved(active: Option<Seq<(Seq<char>, Seq<char>)>>, t: Seq<char>) -> Seq<char> {
    match active {
        Some(vars) => substitute(t, vars),
        None => t,
    }
}

pub open spec fn contains(s: Seq<char>, p: Seq<char>) -> bool {
    exists|k: int| 0 <= k && k + p.len() <= s.len() && #[trigger] s.subrange(k, k + p.len()) == p
}

proof fn lemma_ident_len(s: Seq<char>)
    ensures
        ident_len(s) <= s.len(),
        forall|i: int| 0 <= i < ident_len(s) ==> is_ident_char(#[trigger] s[i]),
        ident_len(s) < s.len() ==> !is_ident_char(s[ident_len(s) as int]),
    decreases s.len(),
{
    if s.len() > 0 && is_ident_char(s[0]) {
        lemma_ident_len(s.drop_first());
        assert forall|i: int| 0 <= i < ident_len(s) implies is_ident_char(#[trigger] s[i]) by {
            if i > 0 {
                assert(s[i] == s.drop_first()[i - 1]);
            }
        }
    }
}

proof fn lemma_placeholder_len(s: Seq<char>)
    ensures
        placeholder_len(s) <= s.len(),
        placeholder_len(s) > 0 ==> placeholder_len(s) >= 5 && s[0] == '{' && s[1] == '{'
            && s[placeholder_len(s) - 2] == '}' && s[placeholder_len(s) - 1] == '}'
            && forall|i: int| 2 <= i < placeholder_len(s) - 2 ==> is_ident_char(#[trigger] s[i]),
{
    if s.len() >= 2 {
        let u = s.subrange(2, s.len() as int);
        lemma_ident_len(u);
        assert forall|i: int| 2 <= i < ident_len(u) + 2 implies is_ident_char(#[trigger] s[i]) by {
            assert(s[i] == u[i - 2]);
        }
    }
}

/// The number of identifier characters of `t` from index `from` on.
fn ident_run(t: &Vec<char>, from: usize) -> (n: usize)
    requires
        from <= t@.len(),
    ensures
        n == ident_len(t@.subrange(from as int, t@.len() as int)),
{
    let len = t.len();
    let mut j: usize = from;
    while j < len && is_ident(t[j])
        invariant
            from <= j <= len,
            len == t@.len(),
            ident_len(t@.subrange(from as int, len as int)) == (j - from) + ident_len(
                t@.subrange(j as int, len as int),
            ),
        decreases len - j,
    {
        assert(t@.subrange(j as int, len as int).drop_first() =~= t@.subrange(j + 1, len as int));
        j = j + 1;
    }
    j - from
}

fn is_ident(c: char) -> (r: bool)
    ensures
        r == is_ident_char(c),
{
    ('a' <= c && c <= 'z') || ('A' <= c && c <= 'Z') || ('0' <= c && c <= '9') || c == '_'
}

/// The length of the placeholder that starts at index `i` of `t`, or 0.
fn placeholder_at(t: &Vec<char>, i: usize) -> (p: usize)
    requires
        i <= t@.len(),
    ensures
        p == placeholder_len(t@.subrange(i as int, t@.len() as int)),
{
    let len = t.len();
    let ghost s = t@.subrange(i as int, len as int);
    if len - i < 2 || t[i] != '{' || t[i + 1] != '{' {
        return 0;
    }
    let n = ident_run(t, i + 2);
    assert(s.subrange(2, s.len() as int) =~= t@.subrange(i + 2, len as int));
    proof {
        lemma_ident_len(t@.subrange(i + 2, len as int));
    }
    if n > 0 && len - i - 2 - n >= 2 && t[i + n + 2] == '}' && t[i + n + 3] == '}' {
        n + 4
    } else {
        0
    }
}

fn chars_of(s: &str) -> (v: Vec<char>)
    ensures
        v@ == s@,
{
    let n = s.unicode_len();
    let mut v: Vec<char> = Vec::new();
    let mut i: usize = 0;
    while i < n
        invariant
            n == s@.len(),
            i <= n,
            v@ == s@.subrange(0, i as int),
        decreases n - i,
    {
        v.push(s.get_char(i));
        i = i + 1;
        assert(v@ =~= s@.subrange(0, i as int));
    }
    assert(v@ =~= s@);
    v
}

/// The value of variable `key` among `vars`.
fn find_variable<'a>(vars: &'a Vec<(String, String)>, key: &str) -> (r: Option<&'a String>)
    ensures
        match r {
            Some(v) => lookup(vars_view(vars@), key@) == Some(v@),
            None => lookup(vars_view(vars@), key@) is None,
        },
{
    let ghost all = vars_view(vars@);
    let mut i: usize = 0;
    assert(all.subrange(0, all.len() as int) =~= all);
    while i < vars.len()
        invariant
            i <= vars.len(),
            all == vars_view(vars@),
            lookup(all, key@) == lookup(all.subrange(i as int, all.len() as int), key@),
        decreases vars.len() - i,
    {
        let ghost rest = all.subrange(i as int, all.len() as int);
        assert(rest[0] == (vars@[i as int].0@, vars@[i as int].1@));
        assert(rest.drop_first() =~= all.subrange(i + 1, all.len() as int));
        if same_text(vars[i].0.as_str(), key) {
            return Some(&vars[i].1);
        }
        i = i + 1;
    }
    assert(all.subrange(i as int, all.len() as int) =~= Seq::<(Seq<char>, Seq<char>)>::empty());
    None
}

/// Substitutes the placeholders of `template` by the values of `vars`.
pub fn substitute_placeholders(template: &str, vars: &Vec<(String, String)>) -> (r: String)
    ensures
        r@ == substitute(template@, vars_view(vars@)),
{
    let ghost vs = vars_view(vars@);
    let t = chars_of(template);
    let len = t.len();
    let mut out = String::new();
    let mut i: usize = 0;
    assert(t@.subrange(0, len as int) =~= t@);
    while i < len
        invariant
            i <= len,
            len == t@.len(),
            t@ == template@,
            vs == vars_view(vars@),
            out@ + substitute(t@.subrange(i as int, len as int), vs) == substitute(t@, vs),
        decreases len - i,
    {
        let ghost s = t@.subrange(i as int, len as int);
        let ghost out0 = out@;
        let p = placeholder_at(&t, i);
        proof {
            lemma_placeholder_len(s);
        }
        if p > 0 {
            let ghost rest = substitute(t@.subrange(i + p, len as int), vs);
            assert(s.subrange(p as int, s.len() as int) =~= t@.subrange(i + p, len as int));
            let name = template.substring_char(i + 2, i + p - 2);
            assert(s.subrange(2, p - 2) =~= name@);
            match find_variable(vars, name) {
                Some(v) => {
                    out.append(v.as_str());
                    assert(out0 + (v@ + rest) =~= out@ + rest);
                },
                None => {
                    let whole = template.substring_char(i, i + p);
                    assert(s.subrange(0, p as int) =~= whole@);
                    out.append(whole);
                    assert(out0 + (whole@ + rest) =~= out@ + rest);
                },
            }
            i = i + p;
        } else {
            let ghost rest = substitute(t@.subrange(i + 1, len as int), vs);
            assert(s.drop_first() =~= t@.subrange(i + 1, len as int));
            let one = template.substring_char(i, i + 1);
            assert(one@ =~= seq![s[0]]);
            out.append(one);
            assert(out0 + (seq![s[0]] + rest) =~= out@ + rest);
            i = i + 1;
        }
    }
    assert(t@.subrange(len as int, len as int) =~= Seq::<char>::empty());
    assert(out@ + Seq::<char>::empty() =~= out@);
    out
}

/// The active environment: its name and its variables. At most one is
/// active; loading another replaces both.
#[derive(Debug)]
pub struct EnvironmentResolver {
    active_variables: Option<Vec<(String, String)>>,
    active_environment_name: Option<String>,
}

pub open spec fn opt_text_view(s: Option<String>) -> Option<Seq<char>> {
    match s {
        Some(t) => Some(t@),
        None => None,
    }
}

/// The model of a resolver: the active name and the active variables.
pub struct ResolverView {
    pub name: Option<Seq<char>>,
    pub variables: Option<Seq<(Seq<char>, Seq<char>)>>,
}

impl View for EnvironmentResolver {
    type V = ResolverView;

    closed spec fn view(&self) -> ResolverView {
        ResolverView {
            name: opt_text_view(self.active_environment_name),
            variables: opt_vars_view(self.active_variables),
        }
    }
}

/// The state after loading `env`, whatever was active before.
pub open spec fn after_load(before: ResolverView, env: Environment) -> ResolverView {
    ResolverView { name: Some(env.name@), variables: opt_vars_view(env.variables) }
}

impl Default for EnvironmentResolver {
    fn default() -> (r: Self)
        ensures
            r@.name is None,
            r@.variables is None,
    {
        EnvironmentResolver { active_variables: None, active_environment_name: None }
    }
}

impl EnvironmentResolver {
    /// Makes the outcome of loading an environment document active. A loaded
    /// environment replaces the active name and variables entirely; a load
    /// error leaves the resolver as it was and is handed back.
    pub fn load_environment_file(&mut self, loaded: Result<Environment, ValidationError>) -> (r:
        Result<(), ValidationError>)
        ensures
            match loaded {
                Ok(env) => r is Ok && final(self)@ == after_load(old(self)@, env),
                Err(e) => r == Err::<(), ValidationError>(e) && final(self)@ == old(self)@,
            },
    {
        match loaded {
            Ok(env) => {
                self.active_environment_name = Some(env.name);
                self.active_variables = env.variables;
                Ok(())
            },
            Err(e) => Err(e),
        }
    }

    /// Replaces every placeholder `{{identifier}}` of `template` whose
    /// variable is active by its value, and keeps the others as they are.
    /// Where no variables are active the template comes back unchanged.
    pub fn resolve_template(&self, template: &str) -> (r: String)
        ensures
            r@ == resolved(self@.variables, template@),
    {
        match &self.active_variables {
            Some(vars) => substitute_placeholders(template, vars),
            None => template.to_string(),
        }
    }

    pub fn active_environment_name(&self) -> (r: Option<&str>)
        ensures
            match r {
                Some(n) => self@.name == Some(n@),
                None => self@.name is None,
            },
    {
        match &self.active_environment_name {
            Some(n) => Some(n.as_str()),
            None => None,
        }
    }

    /// The value of the active variable `key`.
    pub fn active_variable(&self, key: &str) -> (r: Option<String>)
        ensures
            match r {
                Some(v) => self@.variables is Some && lookup(self@.variables->0, key@) == Some(v@),
                None => self@.variables is None || lookup(self@.variables->0, key@) is None,
            },
    {
        match &self.active_variables {
            Some(vars) => match find_variable(vars, key) {
                Some(v) => Some(v.clone()),
                None => None,
            },
            None => None,
        }
    }

    /// The number of active variables, where an environment with variables
    /// is active.
    pub fn active_variable_count(&self) -> (r: Option<usize>)
        ensures
            match r {
                Some(n) => self@.variables is Some && n == self@.variables->0.len(),
                None => self@.variables is None,
            },
    {
        match &self.active_variables {
            Some(vars) => Some(vars.len()),
            None => None,
        }
    }
}

/// `after` holds the pairs of `before` with each value resolved.
pub open spec fn pairs_resolved(
    active: Option<Seq<(Seq<char>, Seq<char>)>>,
    before: Seq<(String, String)>,
    after: Seq<(String, String)>,
) -> bool {
    after.len() == before.len() && forall|i: int|
        0 <= i < before.len() ==> (#[trigger] after[i]).0@ == before[i].0@ && after[i].1@
            == resolved(active, before[i].1@)
}

pub open spec fn opt_pairs_resolved(
    active: Option<Seq<(Seq<char>, Seq<char>)>>,
    before: Option<Vec<(String, String)>>,
    after: Option<Vec<(String, String)>>,
) -> bool {
    match (before, after) {
        (Some(b), Some(a)) => pairs_resolved(active, b@, a@),
        (None, None) => true,
        _ => false,
    }
}

impl EnvironmentResolver {
    fn resolve_pairs(&self, pairs: &Vec<(String, String)>) -> (r: Vec<(String, String)>)
        ensures
            pairs_resolved(self@.variables, pairs@, r@),
    {
        let mut out: Vec<(String, String)> = Vec::new();
        let mut i: usize = 0;
        while i < pairs.len()
            invariant
                i <= pairs.len(),
                out@.len() == i,
                forall|j: int|
                    0 <= j < i ==> (#[trigger] out@[j]).0@ == pairs@[j].0@ && out@[j].1@ == resolved(
                        self@.variables,
                        pairs@[j].1@,
                    ),
            decreases pairs.len() - i,
        {
            let name = pairs[i].0.clone();
            let value = self.resolve_template(pairs[i].1.as_str());
            out.push((name, value));
            i = i + 1;
        }
        out
    }

    fn resolve_opt_pairs(&self, pairs: &Option<Vec<(String, String)>>) -> (r: Option<Vec<(String, String)>>)
        ensures
            opt_pairs_resolved(self@.variables, *pairs, r),
    {
        match pairs {
            Some(p) => Some(self.resolve_pairs(p)),
            None => None,
        }
    }
}

impl RequestDefinition {
    /// The request with the active environment's variables substituted into
    /// its URL, its header values and its parameter values. Name, method and
    /// header and parameter names are kept.
    pub fn resolve_with_env(&self, env: &EnvironmentResolver) -> (r: RequestDefinition)
        ensures
            r.name@ == self.name@,
            r.method == self.method,
            r.url@ == resolved(env@.variables, self.url@),
            opt_pairs_resolved(env@.variables, self.headers, r.headers),
            opt_pairs_resolved(env@.variables, self.params, r.params),
    {
        RequestDefinition {
            name: self.name.clone(),
            method: self.method,
            url: env.resolve_template(self.url.as_str()),
            headers: env.resolve_opt_pairs(&self.headers),
            params: env.resolve_opt_pairs(&self.params),
            body: self.body.clone(),
            auth: self.auth.clone(),
            tests: self.tests.clone(),
        }
    }
}

/// With no active environment, resolving a template gives it back unchanged.
pub proof fn lemma_resolve_without_environment(t: Seq<char>)
    ensures
        resolved(None, t) == t,
{
}

/// With an active environment that sets no variables, resolving a template
/// gives it back unchanged too.
pub proof fn lemma_resolve_with_no_variables(t: Seq<char>)
    ensures
        substitute(t, seq![]) == t,
    decreases t.len(),
{
    if t.len() > 0 {
        lemma_placeholder_len(t);
        let p = placeholder_len(t) as int;
        if p > 0 {
            lemma_resolve_with_no_variables(t.subrange(p, t.len() as int));
            assert(t.subrange(0, p) + t.subrange(p, t.len() as int) =~= t);
        } else {
            lemma_resolve_with_no_variables(t.drop_first());
            assert(seq![t[0]] + t.drop_first() =~= t);
        }
    }
}

proof fn lemma_ident_len_of_name(name: Seq<char>, tail: Seq<char>)
    requires
        is_identifier(name),
        tail.len() > 0,
        tail[0] == '}',
    ensures
        ident_len(name + tail) == name.len(),
    decreases name.len(),
{
    let s = name + tail;
    if name.len() == 1 {
        assert(s.drop_first() =~= tail);
        assert(ident_len(tail) == 0);
    } else {
        assert(s.drop_first() =~= name.drop_first() + tail);
        assert(is_ident_char(name.drop_first()[0]) && is_ident_char(name[0]));
        assert forall|i: int| 0 <= i < name.drop_first().len() implies is_ident_char(
            #[trigger] name.drop_first()[i],
        ) by {
            assert(name.drop_first()[i] == name[i + 1]);
        }
        lemma_ident_len_of_name(name.drop_first(), tail);
    }
}

/// A placeholder `{{x}}` whose variable `x` is not set survives resolution:
/// where `t` holds the text `{{x}}` at index `j`, so does the result,
/// somewhere.
pub proof fn lemma_unresolved_placeholder_kept(
    t: Seq<char>,
    vars: Seq<(Seq<char>, Seq<char>)>,
    x: Seq<char>,
    j: int,
)
    requires
        is_identifier(x),
        lookup(vars, x) is None,
        0 <= j,
        j + x.len() + 4 <= t.len(),
        t.subrange(j, j + x.len() + 4) == placeholder_text(x),
    ensures
        contains(substitute(t, vars), placeholder_text(x)),
    decreases t.len(),
{
    let ph = placeholder_text(x);
    let m: int = x.len() as int + 4;
    let xl = x.len() as int;
    assert(ph.len() == m);
    assert(t[j] == ph[0] && t[j + 1] == ph[1]);
    assert(t[j] == '{' && t[j + 1] == '{');
    lemma_placeholder_len(t);
    let p = placeholder_len(t) as int;
    if j == 0 {
        // the scan stands on the placeholder itself
        let u = t.subrange(2, t.len() as int);
        assert forall|i: int| 0 <= i < m implies #[trigger] t[i] == ph[i] by {
            assert(t.subrange(j, j + m)[i] == t[i]);
        }
        assert forall|i: int| 0 <= i < xl implies #[trigger] x[i] == t[i + 2] by {
            assert(ph[i + 2] == x[i]);
        }
        assert(u =~= x + t.subrange(xl + 2, t.len() as int));
        assert(t[xl + 2] == ph[xl + 2]);
        lemma_ident_len_of_name(x, t.subrange(xl + 2, t.len() as int));
        assert(t[xl + 3] == ph[xl + 3]);
        assert(p == m);
        assert(t.subrange(2, p - 2) =~= x) by {
            assert forall|i: int| 0 <= i < x.len() implies t.subrange(2, p - 2)[i] == x[i] by {
                assert(t[i + 2] == ph[i + 2]);
            }
        }
        let rest = substitute(t.subrange(p, t.len() as int), vars);
        let out = substitute(t, vars);
        assert(out == t.subrange(0, p) + rest);
        assert(out.subrange(0, m) =~= ph);
    } else if p > 0 {
        // an earlier placeholder ends before index j
        assert(j >= p) by {
            if j < p {
                if j == 1 {
                    assert(is_ident_char(t[2]));
                } else if j < p - 2 {
                    assert(is_ident_char(t[j]));
                } else if j == p - 2 {
                } else {
                    assert(t[j] == '}');
                }
            }
        }
        let tail = t.subrange(p, t.len() as int);
        assert(tail.subrange(j - p, j - p + m) =~= t.subrange(j, j + m));
        lemma_unresolved_placeholder_kept(tail, vars, x, j - p);
        let rest = substitute(tail, vars);
        let head = match lookup(vars, t.subrange(2, p - 2)) {
            Some(v) => v,
            None => t.subrange(0, p),
        };
        let out = substitute(t, vars);
        assert(out == head + rest);
        let k = choose|k: int| 0 <= k && k + ph.len() <= rest.len() && #[trigger] rest.subrange(k, k + ph.len()) == ph;
        assert(out.subrange(head.len() + k, head.len() + k + ph.len()) =~= rest.subrange(k, k + ph.len()));
    } else {
        let tail = t.drop_first();
        assert(tail.subrange(j - 1, j - 1 + m) =~= t.subrange(j, j + m));
        lemma_unresolved_placeholder_kept(tail, vars, x, j - 1);
        let rest = substitute(tail, vars);
        let out = substitute(t, vars);
        assert(out == seq![t[0]] + rest);
        let k = choose|k: int| 0 <= k && k + ph.len() <= rest.len() && #[trigger] rest.subrange(k, k + ph.len()) == ph;
        assert(out.subrange(1 + k, 1 + k + ph.len()) =~= rest.subrange(k, k + ph.len()));
    }
}

/// Loading environment `a` and then `b` leaves exactly `b` active: its name
/// and its variables, none of `a`'s.
pub proof fn lemma_load_replaces(before: ResolverView, a: Environment, b: Environment)
    ensures
        after_load(after_load(before, a), b).name == Some(b.name@),
        after_load(after_load(before, a), b).variables == opt_vars_view(b.variables),
        forall|key: Seq<char>|
            #![trigger lookup(after_load(after_load(before, a), b).variables->0, key)]
            b.variables is Some ==> lookup(after_load(after_load(before, a), b).variables->0, key)
                == lookup(vars_view(b.variables->0@), key),
{
}

} // verus!
