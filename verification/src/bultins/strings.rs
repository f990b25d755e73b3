use vstd::prelude::*;
use vstd::string::StringExecFns;
use vstd::string::StringSliceAdditionalSpecFns;

verus! {

broadcast use vstd::string::group_string_axioms;

/// A string value of the engine.
#[derive(Debug)]
pub struct JSString(pub(crate) String);

impl View for JSString {
    type V = Seq<char>;

    closed spec fn view(&self) -> Seq<char> {
        self.0@
    }
}

impl JSString {
    /// The string holding the characters of `s`.
    pub fn from_str(s: &str) -> (r: JSString)
        ensures
            r@ == s@,
    {
        JSString(String::from_str(s))
    }

    /// The string holding the characters of `s`.
    pub fn from_string(s: String) -> (r: JSString)
        ensures
            r@ == s@,
    {
        JSString(s)
    }

    /// The length in bytes of the UTF-8 encoding.
    pub fn len(&self) -> (r: usize)
        ensures
            r == vstd::utf8::encode_utf8(self@).len() as usize,
    {
        self.0.as_str().len()
    }

    /// The characters of the string.
    pub fn as_str(&self) -> (r: &str)
        ensures
            r@ == self@,
    {
        self.0.as_str()
    }

    /// Strings hold no references to other values: nothing to mark.
    pub fn trace(&self) {
    }

    /// The concatenation of `self` and `rhs`.
    pub fn concat(&self, rhs: &JSString) -> (r: JSString)
        ensures
            r@ == self@ + rhs@,
    {
        let mut s = String::from_str(self.0.as_str());
        s.append(rhs.0.as_str());
        JSString(s)
    }

    /// The concatenation of `self` and `rhs`.
    pub fn concat_str(&self, rhs: &str) -> (r: JSString)
        ensures
            r@ == self@ + rhs@,
    {
        let mut s = String::from_str(self.0.as_str());
        s.append(rhs);
        JSString(s)
    }
}

/// A template literal: its literal parts and whether it is tagged.
pub struct Template {
    pub strings: Vec<String>,
    pub tagged: bool,
}

/// The text of a template whose first `n` parts are filled: each part
/// followed by the argument of the same index, where there is one.
pub open spec fn template_text(strings: Seq<String>, args: Seq<String>, n: int) -> Seq<char>
    decreases n,
{
    if n <= 0 {
        seq![]
    } else {
        template_text(strings, args, n - 1) + strings[n - 1]@ + (if n - 1 < args.len() {
            args[n - 1]@
        } else {
            seq![]
        })
    }
}

impl Template {
    /// The string the template evaluates to with the substitutions `args`.
    pub fn create(&self, args: &[String]) -> (r: JSString)
        ensures
            r@ == template_text(self.strings@, args@, self.strings@.len() as int),
    {
        let mut s = String::new();
        let mut i: usize = 0;
        while i < self.strings.len()
            invariant
                i <= self.strings@.len(),
                s@ == template_text(self.strings@, args@, i as int),
            decreases self.strings.len() - i,
        {
            s.append(self.strings[i].as_str());
            if i < args.len() {
                s.append(args[i].as_str());
            }
            i = i + 1;
        }
        JSString(s)
    }
}

} // verus!
