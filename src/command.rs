use vstd::prelude::*;
use vstd::string::StringSliceAdditionalSpecFns;
use vstd::utf8::encode_utf8;

verus! {

/// What the user asked for on the command line: exactly one of these.
pub enum Request {
    /// Bring every installed package up to date.
    Update,
    /// Install the named package.
    Install(String),
    /// Remove the named package.
    Remove(String),
    /// Look the term up in the package index and install the package picked.
    Search(String),
}

pub enum RequestView {
    Update,
    Install(Seq<char>),
    Remove(Seq<char>),
    Search(Seq<char>),
}

impl View for Request {
    type V = RequestView;

    open spec fn view(&self) -> RequestView {
        match self {
            Request::Update => RequestView::Update,
            Request::Install(n) => RequestView::Install(n@),
            Request::Remove(n) => RequestView::Remove(n@),
            Request::Search(q) => RequestView::Search(q@),
        }
    }
}

/// A command line that names more than one action.
#[derive(PartialEq, Eq, Structural, Clone, Copy, Debug)]
pub enum UsageError {
    ConflictingActions,
}

pub open spec fn given(o: Option<String>) -> nat {
    if o is Some {
        1
    } else {
        0
    }
}

/// The request that the optional search term and `-S` and `-r` values make.
pub open spec fn request_of(
    search: Option<String>,
    install: Option<String>,
    remove: Option<String>,
) -> Result<RequestView, UsageError> {
    if given(search) + given(install) + given(remove) > 1 {
        Err(UsageError::ConflictingActions)
    } else if remove is Some {
        Ok(RequestView::Remove(remove->0@))
    } else if install is Some {
        Ok(RequestView::Install(install->0@))
    } else if search is Some {
        Ok(RequestView::Search(search->0@))
    } else {
        Ok(RequestView::Update)
    }
}

impl Request {
    /// Builds the request from the parsed command line: no argument at all asks
    /// for an update, and more than one action is refused.
    pub fn from_args(search: Option<String>, install: Option<String>, remove: Option<String>) -> (r:
        Result<Request, UsageError>)
        ensures
            match r {
                Ok(q) => request_of(search, install, remove) == Ok::<RequestView, UsageError>(q@),
                Err(e) => request_of(search, install, remove) == Err::<RequestView, UsageError>(e),
            },
    {
        let n: usize = (if search.is_some() { 1usize } else { 0 }) + (if install.is_some() {
            1usize
        } else {
            0
        }) + (if remove.is_some() { 1usize } else { 0 });
        if n > 1 {
            return Err(UsageError::ConflictingActions);
        }
        match remove {
            Some(name) => Ok(Request::Remove(name)),
            None => match install {
                Some(name) => Ok(Request::Install(name)),
                None => match search {
                    Some(query) => Ok(Request::Search(query)),
                    None => Ok(Request::Update),
                },
            },
        }
    }
}

/// One run of the package manager: the program and its arguments. It is run
/// with elevated privileges, through `sudo`.
pub struct Invocation {
    pub program: String,
    pub args: Vec<String>,
}

pub struct InvocationView {
    pub program: Seq<char>,
    pub args: Seq<Seq<char>>,
}

impl View for Invocation {
    type V = InvocationView;

    open spec fn view(&self) -> InvocationView {
        InvocationView { program: self.program@, args: self.args@.map_values(|a: String| a@) }
    }
}

pub open spec fn package_manager() -> Seq<char> {
    seq!['d', 'n', 'f']
}

pub open spec fn elevator() -> Seq<char> {
    seq!['s', 'u', 'd', 'o']
}

pub open spec fn install_word() -> Seq<char> {
    seq!['i', 'n', 's', 't', 'a', 'l', 'l']
}

pub open spec fn update_word() -> Seq<char> {
    seq!['u', 'p', 'd', 'a', 't', 'e']
}

pub open spec fn assume_yes() -> Seq<char> {
    seq!['-', 'y']
}

/// The package manager run with these arguments.
pub open spec fn manager_with(args: Seq<Seq<char>>) -> InvocationView {
    InvocationView { program: package_manager(), args }
}

fn manager_name() -> (r: String)
    ensures
        r@ == package_manager(),
{
    let r = String::from_str("dnf");
    proof {
        reveal_strlit("dnf");
        assert(r@ =~= package_manager());
    }
    r
}

fn yes_flag() -> (r: String)
    ensures
        r@ == assume_yes(),
{
    let r = String::from_str("-y");
    proof {
        reveal_strlit("-y");
        assert(r@ =~= assume_yes());
    }
    r
}

/// Installs `name`, answering yes to every question.
pub fn install_invocation(name: &str) -> (r: Invocation)
    ensures
        r@ == manager_with(seq![install_word(), name@, assume_yes()]),
{
    let word = String::from_str("install");
    proof {
        reveal_strlit("install");
        assert(word@ =~= install_word());
    }
    let args = vec![word, String::from_str(name), yes_flag()];
    let r = Invocation { program: manager_name(), args };
    assert(r@.args =~= seq![install_word(), name@, assume_yes()]);
    r
}

/// What the remove action runs: the package manager's `install` on `name`,
/// exactly as for an install. The action keeps this long-standing behaviour;
/// it does not run the package manager's `remove`.
pub fn remove_invocation(name: &str) -> (r: Invocation)
    ensures
        r@ == manager_with(seq![install_word(), name@, assume_yes()]),
{
    install_invocation(name)
}

/// Updates every installed package, answering yes to every question.
pub fn update_invocation() -> (r: Invocation)
    ensures
        r@ == manager_with(seq![update_word(), assume_yes()]),
{
    let word = String::from_str("update");
    proof {
        reveal_strlit("update");
        assert(word@ =~= update_word());
    }
    let args = vec![word, yes_flag()];
    let r = Invocation { program: manager_name(), args };
    assert(r@.args =~= seq![update_word(), assume_yes()]);
    r
}

impl Invocation {
    /// The full command line to start: `sudo`, the program, then its arguments.
    pub fn command_line(&self) -> (r: Vec<String>)
        ensures
            r@.map_values(|a: String| a@) == seq![elevator(), self.program@] + self@.args,
    {
        let first = String::from_str("sudo");
        proof {
            reveal_strlit("sudo");
            assert(first@ =~= elevator());
        }
        let mut r: Vec<String> = vec![first, self.program.clone()];
        let mut i: usize = 0;
        while i < self.args.len()
            invariant
                i <= self.args@.len(),
                r@.map_values(|a: String| a@) == seq![elevator(), self.program@] + self@.args.subrange(0, i as int),
            decreases self.args@.len() - i,
        {
            let a = self.args[i].clone();
            assert(self@.args[i as int] == a@);
            let ghost prev = r@;
            r.push(a);
            assert(r@.map_values(|a: String| a@) =~= prev.map_values(|a: String| a@).push(a@));
            assert(r@.map_values(|a: String| a@) =~= seq![elevator(), self.program@] + self@.args.subrange(0, i + 1));
            i = i + 1;
        }
        assert(self@.args.subrange(0, self@.args.len() as int) =~= self@.args);
        r
    }
}

/// Relies on String::push: `c` is appended to the end of `s`.
#[verifier::external_body]
fn push_char(s: &mut String, c: char)
    ensures
        final(s)@ == old(s)@.push(c),
{
    s.push(c)
}

/// A byte that stands for itself in a query string.
pub open spec fn is_unreserved(b: u8) -> bool {
    (48 <= b <= 57) || (65 <= b <= 90) || (97 <= b <= 122) || b == 45 || b == 46 || b == 95
        || b == 126
}

pub open spec fn hex_digit(n: u8) -> char {
    if n < 10 {
        (48 + n) as u8 as char
    } else {
        (55 + n) as u8 as char
    }
}

/// How one byte of a query is written in a URL.
pub open spec fn encode_byte(b: u8) -> Seq<char> {
    if is_unreserved(b) {
        seq![b as char]
    } else {
        seq!['%', hex_digit(b / 16), hex_digit(b % 16)]
    }
}

/// The bytes of a query, percent-encoded.
pub open spec fn percent_encoded(bs: Seq<u8>) -> Seq<char>
    decreases bs.len(),
{
    if bs.len() == 0 {
        Seq::empty()
    } else {
        percent_encoded(bs.drop_last()) + encode_byte(bs.last())
    }
}

pub open spec fn search_prefix() -> Seq<char> {
    "https://packages.fedoraproject.org/search?query="@
}

fn hex_char(n: u8) -> (r: char)
    requires
        n < 16,
    ensures
        r == hex_digit(n),
{
    if n < 10 {
        (48 + n) as char
    } else {
        (55 + n) as char
    }
}

/// The address of the package index's search page for a query.
pub open spec fn search_url_of(query: Seq<char>) -> Seq<char> {
    search_prefix() + percent_encoded(encode_utf8(query))
}

/// The package index's search page for `query`, the query's UTF-8 bytes
/// percent-encoded.
pub fn search_url(query: &str) -> (r: String)
    ensures
        r@ == search_url_of(query@),
{
    let mut r = String::from_str("https://packages.fedoraproject.org/search?query=");
    let bs = query.as_bytes();
    let mut i: usize = 0;
    while i < bs.len()
        invariant
            i <= bs@.len(),
            bs@ == query.spec_bytes(),
            r@ == search_prefix() + percent_encoded(bs@.subrange(0, i as int)),
        decreases bs@.len() - i,
    {
        let b = bs[i];
        assert(bs@.subrange(0, i + 1).drop_last() =~= bs@.subrange(0, i as int));
        if (48 <= b && b <= 57) || (65 <= b && b <= 90) || (97 <= b && b <= 122) || b == 45 || b
            == 46 || b == 95 || b == 126 {
            push_char(&mut r, b as char);
        } else {
            push_char(&mut r, '%');
            push_char(&mut r, hex_char(b / 16));
            push_char(&mut r, hex_char(b % 16));
        }
        assert(r@ =~= search_prefix() + percent_encoded(bs@.subrange(0, i + 1)));
        i = i + 1;
    }
    assert(bs@.subrange(0, bs@.len() as int) =~= bs@);
    r
}

} // verus!
