//! A declared positional parameter of a task, and the display form of a
//! task's argument list.
use vstd::prelude::*;
use crate::text::str_eq;

verus! {

/// A declared positional parameter of a task.  Call-time values bind to
/// declared arguments by position; a missing value falls back to the
/// default, and a permitted-value set, when present, closes the set of
/// acceptable values.
#[derive(Clone)]
pub struct Argument {
    /// Name of the argument, as placeholders reference it.
    pub name: String,
    /// Default value, used when no call-time value is supplied.
    pub default: Option<String>,
    /// Permitted values; any call-time or default value must be a member.
    pub options: Option<Vec<String>>,
}

/// Position of the first declared argument named `name`, if any.
pub open spec fn arg_position(args: Seq<Argument>, name: Seq<char>) -> Option<int>
    decreases args.len(),
{
    if args.len() == 0 {
        None
    } else if args[0].name@ == name {
        Some(0int)
    } else {
        match arg_position(args.drop_first(), name) {
            Some(i) => Some(i + 1),
            None => None,
        }
    }
}

/// `arg_position` names the first match: the argument there carries the
/// name, no earlier one does, and a `None` means no argument carries it.
pub proof fn lemma_arg_position(args: Seq<Argument>, name: Seq<char>)
    ensures
        match arg_position(args, name) {
            Some(i) => 0 <= i < args.len() && args[i].name@ == name && (forall|j: int|
                0 <= j < i ==> args[j].name@ != name),
            None => forall|j: int| 0 <= j < args.len() ==> args[j].name@ != name,
        },
    decreases args.len(),
{
    if args.len() > 0 && args[0].name@ != name {
        let rest = args.drop_first();
        lemma_arg_position(rest, name);
        assert(forall|j: int| 0 <= j < rest.len() ==> rest[j] == args[j + 1]);
        match arg_position(rest, name) {
            Some(i) => {
                assert(args[i + 1] == rest[i]);
                assert(forall|j: int| 1 <= j < i + 1 ==> args[j] == rest[j - 1]);
            },
            None => {
                assert(forall|j: int| 1 <= j < args.len() ==> args[j] == rest[j - 1]);
            },
        }
    }
}

/// Does some member of `opts` read `v`?
pub open spec fn options_contain(opts: Seq<String>, v: Seq<char>) -> bool {
    exists|i: int| 0 <= i < opts.len() && opts[i]@ == v
}

/// Membership test against a permitted-value set.
pub fn contains_value(opts: &Vec<String>, v: &str) -> (r: bool)
    ensures
        r == options_contain(opts@, v@),
{
    let n = opts.len();
    let mut i: usize = 0;
    while i < n
        invariant
            n == opts@.len(),
            i <= n,
            forall|j: int| 0 <= j < i ==> opts@[j]@ != v@,
        decreases n - i,
    {
        if str_eq(opts[i].as_str(), v) {
            assert(opts@[i as int]@ == v@);
            return true;
        }
        i = i + 1;
    }
    false
}

/// The display form of an argument list: one ` <name>` or ` <name=default>`
/// marker per declared argument, in declaration order.
pub open spec fn args_display(args: Seq<Argument>) -> Seq<char>
    decreases args.len(),
{
    if args.len() == 0 {
        Seq::empty()
    } else {
        " <"@ + args[0].name@ + (match args[0].default {
            Some(d) => "="@ + d@,
            None => Seq::<char>::empty(),
        }) + ">"@ + args_display(args.drop_first())
    }
}

/// Rendering a value as text, where the display form is this library's own
/// rather than the standard one.
pub trait CustomToString {
    /// The text the rendering must produce.
    spec fn to_string_spec(&self) -> Seq<char>;

    /// Renders the value.
    fn to_string(&self) -> (s: String)
        ensures
            s@ == self.to_string_spec(),
    ;
}

impl CustomToString for Vec<Argument> {
    open spec fn to_string_spec(&self) -> Seq<char> {
        args_display(self@)
    }

    fn to_string(&self) -> (s: String) {
        let n = self.len();
        let mut out = String::new();
        let mut i: usize = 0;
        proof {
            assert(self@.skip(0) =~= self@);
            assert(args_display(self@) =~= out@ + args_display(self@));
        }
        while i < n
            invariant
                n == self@.len(),
                i <= n,
                args_display(self@) == out@ + args_display(self@.skip(i as int)),
            decreases n - i,
        {
            let ghost prev = out@;
            let arg = &self[i];
            out.append(" <");
            out.append(arg.name.as_str());
            match &arg.default {
                Some(d) => {
                    out.append("=");
                    out.append(d.as_str());
                },
                None => {},
            }
            out.append(">");
            proof {
                let rest = self@.skip(i as int);
                assert(rest[0] == self@[i as int]);
                assert(rest.drop_first() =~= self@.skip(i + 1));
                assert(out@ =~= prev + (" <"@ + self@[i as int].name@ + (match self@[i as int].default {
                    Some(d) => "="@ + d@,
                    None => Seq::<char>::empty(),
                }) + ">"@));
                assert(args_display(self@) =~= out@ + args_display(self@.skip(i + 1)));
            }
            i = i + 1;
        }
        proof {
            assert(args_display(self@.skip(n as int)) =~= Seq::<char>::empty());
            assert(args_display(self@) =~= out@);
        }
        out
    }
}

} // verus!
