//! The text form of a list, for diagnostics: `[1, 2, 3]`, and `[]` for the
//! empty list.

use crate::list::List;
use std::fmt::Debug;
use std::fmt::Write;
use std::sync::Arc;
use vstd::prelude::*;
use vstd::string::StringExecFns;

verus! {

/// The texts in `texts`, in order, with a comma and a space between each two.
pub open spec fn spec_joined(texts: Seq<Seq<char>>) -> Seq<char>
    decreases texts.len(),
{
    if texts.len() == 0 {
        Seq::empty()
    } else if texts.len() == 1 {
        texts[0]
    } else {
        spec_joined(texts.drop_last()) + seq![',', ' '] + texts.last()
    }
}

/// The texts in `texts`, joined by commas and spaces, between square brackets.
pub open spec fn spec_bracketed(texts: Seq<Seq<char>>) -> Seq<char> {
    seq!['['] + spec_joined(texts) + seq![']']
}

/// The characters of each text in `texts`.
pub open spec fn spec_texts(texts: Seq<String>) -> Seq<Seq<char>> {
    texts.map_values(|text: String| text@)
}

/// `write!` with `{:?}` into a fresh `String`: the text that `Debug` gives for
/// `value`, or the error that the implementation of `Debug` for `T` returned.
/// Which of the two, and what the text is, lies with that implementation, so
/// nothing is claimed of the result.
#[verifier::external_body]
fn try_debug_text<T: Debug>(value: &T) -> (text: Result<String, std::fmt::Error>) {
    let mut text = String::new();
    match write!(text, "{:?}", value) {
        Ok(()) => Ok(text),
        Err(e) => Err(e),
    }
}

/// Puts the texts of the items of a list together: an opening bracket, the
/// texts in order with `", "` between each two, and a closing bracket.
pub fn bracketed(texts: &Vec<String>) -> (s: String)
    ensures
        s@ == spec_bracketed(spec_texts(texts@)),
{
    let ghost all = spec_texts(texts@);
    proof {
        reveal_strlit("[");
        reveal_strlit(", ");
        reveal_strlit("]");
    }
    let mut s = String::from_str("[");
    let mut i: usize = 0;
    while i < texts.len()
        invariant
            i <= texts.len(),
            all == spec_texts(texts@),
            ", "@ == seq![',', ' '],
            s@ == seq!['['] + spec_joined(all.take(i as int)),
        decreases texts.len() - i,
    {
        if i > 0 {
            s.append(", ");
        }
        s.append(texts[i].as_str());
        proof {
            let now = all.take(i + 1);
            assert(now.drop_last() == all.take(i as int));
        }
        i = i + 1;
    }
    s.append("]");
    proof {
        assert(all.take(i as int) == all);
    }
    s
}

impl<T> List<T> {
    /// The list as text, with `show` giving the text of each value: the texts
    /// of the values, in the order of the values, separated by `", "`, between
    /// square brackets.
    ///
    /// `show` is asked once for each value, from the head on. The first error
    /// it returns ends the walk and is handed back as it came.
    pub fn render_with<E, F: Fn(&T) -> Result<String, E>>(&self, show: F) -> (r: Result<String, E>)
        requires
            forall|v: &T| call_requires(show, (v,)),
        ensures
            r matches Ok(s) ==> exists|texts: Seq<String>|
                texts.len() == self@.len() && (forall|i: int|
                    0 <= i < texts.len() ==> call_ensures(
                        show,
                        (&self@[i],),
                        Ok::<String, E>(#[trigger] texts[i]),
                    )) && s@ == spec_bracketed(spec_texts(texts)),
            r matches Err(e) ==> exists|i: int|
                0 <= i < self@.len() && #[trigger] call_ensures(show, (&self@[i],), Err::<String, E>(e)),
    {
        let values = self.to_vec();
        let mut texts: Vec<String> = Vec::new();
        let mut i: usize = 0;
        while i < values.len()
            invariant
                i <= values.len(),
                texts@.len() == i,
                values@.map_values(|a: Arc<T>| *a) == self@,
                forall|v: &T| call_requires(show, (v,)),
                forall|k: int|
                    0 <= k < i ==> call_ensures(
                        show,
                        (&self@[k],),
                        Ok::<String, E>(#[trigger] texts@[k]),
                    ),
            decreases values.len() - i,
        {
            let value: &Arc<T> = &values[i];
            assert(**value == self@[i as int]);
            match show(&**value) {
                Ok(text) => {
                    texts.push(text);
                },
                Err(e) => {
                    assert(call_ensures(show, (&self@[i as int],), Err::<String, E>(e)));
                    return Err(e);
                },
            }
            i = i + 1;
        }
        Ok(bracketed(&texts))
    }
}

impl<T: Debug> List<T> {
    /// The list as text: the `Debug` text of each value, in the order of the
    /// values, separated by `", "`, between square brackets; or the first
    /// error that `Debug` returned for a value.
    pub fn render(&self) -> (r: Result<String, std::fmt::Error>)
        ensures
            r matches Ok(s) ==> exists|texts: Seq<String>|
                texts.len() == self@.len() && s@ == #[trigger] spec_bracketed(spec_texts(texts)),
    {
        self.render_with(try_debug_text::<T>)
    }
}

/// `std::fmt::Formatter`, carried through untouched.
#[verifier::external_type_specification]
#[verifier::external_body]
pub struct ExFormatter<'a>(std::fmt::Formatter<'a>);

/// `std::fmt::Error`, carried through untouched.
#[verifier::external_type_specification]
#[verifier::external_body]
pub struct ExFmtError(std::fmt::Error);

/// `Formatter::write_str`: hands `text` to whatever the formatter writes to.
/// Whether that succeeds lies with the writer, so nothing is claimed of the
/// result.
#[verifier::external_body]
fn write_text(f: &mut std::fmt::Formatter<'_>, text: &str) -> (r: Result<(), std::fmt::Error>) {
    f.write_str(text)
}

impl<T: Debug> Debug for List<T> {
    /// Writes the text that `render` returns. An error that `Debug` returned
    /// for a value is handed back before anything is written; otherwise the
    /// result is the writer's.
    fn fmt(&self, f: &mut std::fmt::Formatter<'_>) -> (r: Result<(), std::fmt::Error>) {
        match self.render() {
            Ok(text) => write_text(f, text.as_str()),
            Err(e) => Err(e),
        }
    }
}

} // verus!
