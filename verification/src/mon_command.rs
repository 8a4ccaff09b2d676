//! Builder for monitor commands: a set of named string arguments rendered
//! as a JSON object.

use vstd::prelude::*;

use crate::json::{json_quoted, quoted};
use crate::text::str_eq;

verus! {

/// A monitor command: named string arguments.  A new command asks for JSON
/// output (`format` is `json`); setting an argument that is already present
/// replaces its value.
pub struct MonCommand<'a> {
    map: Vec<(&'a str, &'a str)>,
}

/// No name occurs twice among the arguments.
pub open spec fn names_distinct(args: Seq<(Seq<char>, Seq<char>)>) -> bool {
    forall|i: int, j: int| 0 <= i < j < args.len() ==> args[i].0 != args[j].0
}

/// The value given to `name`, if any.
pub open spec fn arg_value(args: Seq<(Seq<char>, Seq<char>)>, name: Seq<char>) -> Option<Seq<char>>
    decreases args.len(),
{
    if args.len() == 0 {
        None
    } else if args[0].0 == name {
        Some(args[0].1)
    } else {
        arg_value(args.drop_first(), name)
    }
}

/// The arguments after setting `name` to `value`: the value replaces the
/// one given before, in place, or the argument is added at the end.
pub open spec fn set_arg(args: Seq<(Seq<char>, Seq<char>)>, name: Seq<char>, value: Seq<char>) -> Seq<(Seq<char>, Seq<char>)> {
    if exists|i: int| 0 <= i < args.len() && args[i].0 == name {
        let i = choose|i: int| 0 <= i < args.len() && args[i].0 == name;
        args.update(i, (name, value))
    } else {
        args.push((name, value))
    }
}

/// The texts joined by commas.
pub open spec fn comma_joined(parts: Seq<Seq<char>>) -> Seq<char>
    decreases parts.len(),
{
    if parts.len() == 0 {
        Seq::empty()
    } else if parts.len() == 1 {
        parts[0]
    } else {
        parts[0] + ","@ + comma_joined(parts.drop_first())
    }
}

/// `"name":"value"` as JSON.
pub open spec fn arg_text(arg: (Seq<char>, Seq<char>)) -> Seq<char> {
    json_quoted(arg.0) + ":"@ + json_quoted(arg.1)
}

/// The arguments as a compact JSON object, in order.
pub open spec fn args_json(args: Seq<(Seq<char>, Seq<char>)>) -> Seq<char> {
    "{"@ + comma_joined(args.map_values(|a: (Seq<char>, Seq<char>)| arg_text(a))) + "}"@
}

pub proof fn lemma_comma_joined_push(parts: Seq<Seq<char>>, x: Seq<char>)
    ensures
        comma_joined(parts.push(x)) == if parts.len() == 0 {
            x
        } else {
            comma_joined(parts) + ","@ + x
        },
    decreases parts.len(),
{
    if parts.len() == 0 {
    } else if parts.len() == 1 {
        assert(parts.push(x).drop_first() =~= seq![x]);
        assert(comma_joined(seq![x]) == x);
    } else {
        assert(parts.push(x).drop_first() =~= parts.drop_first().push(x));
        lemma_comma_joined_push(parts.drop_first(), x);
        assert(comma_joined(parts.push(x)) =~= comma_joined(parts) + ","@ + x);
    }
}

impl<'a> View for MonCommand<'a> {
    type V = Seq<(Seq<char>, Seq<char>)>;

    closed spec fn view(&self) -> Seq<(Seq<char>, Seq<char>)> {
        self.map@.map_values(|p: (&'a str, &'a str)| (p.0@, p.1@))
    }
}

impl<'a> MonCommand<'a> {
    #[verifier::type_invariant]
    closed spec fn inv(self) -> bool {
        names_distinct(self@)
    }

    /// A command with only `format` set to `json`.
    pub fn new() -> (r: MonCommand<'a>)
        ensures
            r@ == seq![("format"@, "json"@)],
            names_distinct(r@),
    {
        MonCommand::default()
    }

    /// Sets `format`.
    pub fn with_format(self, format: &'a str) -> (r: MonCommand<'a>)
        ensures
            r@ == set_arg(self@, "format"@, format@),
            names_distinct(r@),
    {
        self.with("format", format)
    }

    /// Sets `name`.
    pub fn with_name(self, name: &'a str) -> (r: MonCommand<'a>)
        ensures
            r@ == set_arg(self@, "name"@, name@),
            names_distinct(r@),
    {
        self.with("name", name)
    }

    /// Sets `prefix`, the command's name.
    pub fn with_prefix(self, prefix: &'a str) -> (r: MonCommand<'a>)
        ensures
            r@ == set_arg(self@, "prefix"@, prefix@),
            names_distinct(r@),
    {
        self.with("prefix", prefix)
    }

    /// Sets the argument `name` to `value`.
    pub fn with(self, name: &'a str, value: &'a str) -> (r: MonCommand<'a>)
        ensures
            r@ == set_arg(self@, name@, value@),
            names_distinct(r@),
    {
        proof {
            use_type_invariant(&self);
        }
        let ghost args = self@;
        let mut map = self.map;
        assert(map@.map_values(|p: (&'a str, &'a str)| (p.0@, p.1@)) == args);
        let mut i: usize = 0;
        while i < map.len()
            invariant
                i <= map@.len(),
                map@.map_values(|p: (&'a str, &'a str)| (p.0@, p.1@)) == args,
                names_distinct(args),
                args == self@,
                forall|j: int| 0 <= j < i ==> args[j].0 != name@,
            decreases map@.len() - i,
        {
            if str_eq(map[i].0, name) {
                assert(args[i as int].0 == name@);
                map.set(i, (name, value));
                let ghost updated = args.update(i as int, (name@, value@));
                assert(map@.map_values(|p: (&'a str, &'a str)| (p.0@, p.1@)) =~= updated);
                assert(exists|k: int| 0 <= k < args.len() && args[k].0 == name@) by {
                    assert(0 <= i < args.len() && args[i as int].0 == name@);
                }
                let ghost k = choose|k: int| 0 <= k < args.len() && args[k].0 == name@;
                assert(k == i) by {
                    if k != i as int {
                        assert(args[k].0 == args[i as int].0);
                    }
                }
                assert(names_distinct(updated)) by {
                    assert forall|a: int, b: int| 0 <= a < b < updated.len() implies updated[a].0 != updated[b].0 by {
                        assert(updated[a].0 == args[a].0);
                        assert(updated[b].0 == args[b].0);
                    }
                }
                assert(set_arg(args, name@, value@) == updated);
                return MonCommand { map };
            }
            i = i + 1;
        }
        map.push((name, value));
        let ghost pushed = args.push((name@, value@));
        assert(map@.map_values(|p: (&'a str, &'a str)| (p.0@, p.1@)) =~= pushed);
        assert(names_distinct(pushed)) by {
            assert forall|a: int, b: int| 0 <= a < b < pushed.len() implies pushed[a].0 != pushed[b].0 by {
                if b == args.len() {
                    assert(args[a].0 != name@);
                }
            }
        }
        MonCommand { map }
    }

    /// The command as a compact JSON object of string members, in the order
    /// the arguments were first given; no name occurs twice in it.
    pub fn as_json(&self) -> (r: String)
        ensures
            r@ == args_json(self@),
            names_distinct(self@),
    {
        proof {
            use_type_invariant(self);
        }
        let ghost args = self@;
        let ghost texts = args.map_values(|a: (Seq<char>, Seq<char>)| arg_text(a));
        let mut out = String::new();
        out.append("{");
        let mut i: usize = 0;
        assert(texts.subrange(0, 0) =~= Seq::<Seq<char>>::empty());
        while i < self.map.len()
            invariant
                i <= self.map@.len(),
                args == self@,
                self@ == self.map@.map_values(|p: (&'a str, &'a str)| (p.0@, p.1@)),
                texts == args.map_values(|a: (Seq<char>, Seq<char>)| arg_text(a)),
                out@ == "{"@ + comma_joined(texts.subrange(0, i as int)),
            decreases self.map@.len() - i,
        {
            assert(texts.subrange(0, i + 1) =~= texts.subrange(0, i as int).push(texts[i as int]));
            proof {
                lemma_comma_joined_push(texts.subrange(0, i as int), texts[i as int]);
            }
            if i > 0 {
                out.append(",");
            }
            let (k, v) = self.map[i];
            let qk = quoted(k);
            let qv = quoted(v);
            out.append(qk.as_str());
            out.append(":");
            out.append(qv.as_str());
            assert(texts[i as int] == arg_text(args[i as int]));
            assert(out@ =~= "{"@ + comma_joined(texts.subrange(0, i + 1)));
            i = i + 1;
        }
        assert(texts.subrange(0, texts.len() as int) =~= texts);
        out.append("}");
        out
    }
}

impl<'a> Default for MonCommand<'a> {
    fn default() -> (r: MonCommand<'a>)
        ensures
            r@ == seq![("format"@, "json"@)],
            names_distinct(r@),
    {
        let mut map: Vec<(&'a str, &'a str)> = Vec::new();
        map.push(("format", "json"));
        let r = MonCommand { map };
        assert(r@ =~= seq![("format"@, "json"@)]);
        r
    }
}

} // verus!

verus! {

proof fn lemma_arg_value_at(args: Seq<(Seq<char>, Seq<char>)>, i: int)
    requires
        names_distinct(args),
        0 <= i < args.len(),
    ensures
        arg_value(args, args[i].0) == Some(args[i].1),
    decreases args.len(),
{
    if i > 0 {
        assert(args[0].0 != args[i].0);
        assert(args.drop_first()[i - 1] == args[i]);
        lemma_arg_value_at(args.drop_first(), i - 1);
    }
}

proof fn lemma_arg_value_absent(args: Seq<(Seq<char>, Seq<char>)>, name: Seq<char>)
    requires
        forall|i: int| 0 <= i < args.len() ==> args[i].0 != name,
    ensures
        arg_value(args, name) is None,
    decreases args.len(),
{
    if args.len() > 0 {
        assert(args[0].0 != name);
        assert forall|i: int| 0 <= i < args.drop_first().len() implies args.drop_first()[i].0 != name by {
            assert(args.drop_first()[i] == args[i + 1]);
        }
        lemma_arg_value_absent(args.drop_first(), name);
    }
}

/// Setting an argument keeps the names distinct.
pub proof fn lemma_set_arg_distinct(args: Seq<(Seq<char>, Seq<char>)>, name: Seq<char>, value: Seq<char>)
    requires
        names_distinct(args),
    ensures
        names_distinct(set_arg(args, name, value)),
{
    let r = set_arg(args, name, value);
    if exists|i: int| 0 <= i < args.len() && args[i].0 == name {
        let k = choose|i: int| 0 <= i < args.len() && args[i].0 == name;
        assert forall|a: int, b: int| 0 <= a < b < r.len() implies r[a].0 != r[b].0 by {
            assert(r[a].0 == args[a].0);
            assert(r[b].0 == args[b].0);
        }
    } else {
        assert forall|a: int, b: int| 0 <= a < b < r.len() implies r[a].0 != r[b].0 by {
            if b == args.len() {
                assert(args[a].0 != name);
            }
        }
    }
}

/// Reading an argument back after setting it gives the value set; every
/// other argument keeps its value.
pub proof fn lemma_set_arg_read(
    args: Seq<(Seq<char>, Seq<char>)>,
    name: Seq<char>,
    value: Seq<char>,
    other: Seq<char>,
)
    requires
        names_distinct(args),
    ensures
        arg_value(set_arg(args, name, value), name) == Some(value),
        other != name ==> arg_value(set_arg(args, name, value), other) == arg_value(args, other),
{
    let r = set_arg(args, name, value);
    lemma_set_arg_distinct(args, name, value);
    let k: int = if exists|i: int| 0 <= i < args.len() && args[i].0 == name {
        choose|i: int| 0 <= i < args.len() && args[i].0 == name
    } else {
        args.len() as int
    };
    assert(0 <= k < r.len() && r[k] == (name, value));
    lemma_arg_value_at(r, k);
    if other != name {
        if exists|i: int| 0 <= i < args.len() && args[i].0 == other {
            let j = choose|i: int| 0 <= i < args.len() && args[i].0 == other;
            lemma_arg_value_at(args, j);
            assert(r[j] == args[j]);
            lemma_arg_value_at(r, j);
        } else {
            lemma_arg_value_absent(args, other);
            assert forall|i: int| 0 <= i < r.len() implies r[i].0 != other by {
                if i != k {
                    assert(r[i] == args[i]);
                }
            }
            lemma_arg_value_absent(r, other);
        }
    }
}

} // verus!
