//! The kernel command line: what a `linux_loader` command line holds and what the calls on it do.
use linux_loader::cmdline::Cmdline;
use linux_loader::cmdline::Error as CmdlineError;
use vstd::prelude::*;
use vstd::utf8::{encode_utf8, is_ascii_chars, is_ascii_chars_encode_utf8};

verus! {

/// `linux_loader::cmdline::Cmdline`: a kernel command line that is being put together.
#[verifier::external_type_specification]
#[verifier::external_body]
pub struct ExCmdline(linux_loader::cmdline::Cmdline);

/// `linux_loader::cmdline::Error`: why a command line operation was refused. Its variants are
/// public and are read as they stand.
#[verifier::external_type_specification]
pub struct ExCmdlineError(linux_loader::cmdline::Error);

/// The boot arguments that a command line holds.
pub uninterp spec fn boot_args(cmdline: Cmdline) -> Seq<char>;

/// The arguments for the init process that a command line holds.
pub uninterp spec fn init_args(cmdline: Cmdline) -> Seq<char>;

/// The size in bytes, with the terminating nul, that a command line was made for.
pub uninterp spec fn capacity(cmdline: Cmdline) -> nat;

/// The contents of a command line.
#[verifier::ext_equal]
pub struct CmdlineModel {
    pub boot_args: Seq<char>,
    pub init_args: Seq<char>,
    pub capacity: nat,
}

/// What `cmdline` holds.
pub open spec fn model(cmdline: Cmdline) -> CmdlineModel {
    CmdlineModel {
        boot_args: boot_args(cmdline),
        init_args: init_args(cmdline),
        capacity: capacity(cmdline),
    }
}

/// The characters with the Unicode property `White_Space`.
pub open spec fn is_white_space(c: char) -> bool {
    let n = c as u32;
    ||| 0x9 <= n <= 0xd
    ||| n == 0x20
    ||| n == 0x85
    ||| n == 0xa0
    ||| n == 0x1680
    ||| 0x2000 <= n <= 0x200a
    ||| n == 0x2028
    ||| n == 0x2029
    ||| n == 0x202f
    ||| n == 0x205f
    ||| n == 0x3000
}

/// `s` without the white space at its front.
pub open spec fn trim_start(s: Seq<char>) -> Seq<char>
    decreases s.len(),
{
    if s.len() > 0 && is_white_space(s[0]) {
        trim_start(s.drop_first())
    } else {
        s
    }
}

/// `s` without the white space at its end.
pub open spec fn trim_end(s: Seq<char>) -> Seq<char>
    decreases s.len(),
{
    if s.len() > 0 && is_white_space(s.last()) {
        trim_end(s.drop_last())
    } else {
        s
    }
}

/// `s` without the white space around it.
pub open spec fn trim(s: Seq<char>) -> Seq<char> {
    trim_end(trim_start(s))
}

/// Every character of `s` is printable ASCII.
pub open spec fn is_printable(s: Seq<char>) -> bool {
    forall|i: int| 0 <= i < s.len() ==> ' ' <= #[trigger] s[i] && s[i] <= '~'
}

impl CmdlineModel {
    /// The bytes that the command line takes in guest memory, the terminating nul included.
    pub open spec fn size(self) -> nat {
        encode_utf8(self.boot_args).len() + 1 + if self.init_args.len() == 0 {
            0
        } else {
            4 + encode_utf8(self.init_args).len()
        }
    }

    /// The command line after `slug` was inserted among the boot arguments, or why it was refused.
    pub open spec fn insert(self, slug: Seq<char>) -> Result<CmdlineModel, CmdlineError> {
        let arg = trim(slug);
        let separator: nat = if self.boot_args.len() == 0 {
            0
        } else {
            1
        };
        if !is_printable(arg) {
            Err(CmdlineError::InvalidAscii)
        } else if self.size() + separator + arg.len() > self.capacity {
            Err(CmdlineError::TooLarge)
        } else if self.boot_args.len() == 0 {
            Ok(CmdlineModel { boot_args: arg, ..self })
        } else {
            Ok(CmdlineModel { boot_args: self.boot_args + seq![' '] + arg, ..self })
        }
    }

    /// The characters that the kernel is handed, and none where there are arguments for init but
    /// none for the kernel, or where a nul stands among them.
    pub open spec fn text(self) -> Option<Seq<char>> {
        let whole = if self.init_args.len() == 0 {
            self.boot_args
        } else {
            self.boot_args + seq![' ', '-', '-', ' '] + self.init_args
        };
        if self.boot_args.len() == 0 && self.init_args.len() > 0 {
            None
        } else if whole.contains('\0') {
            None
        } else {
            Some(whole)
        }
    }
}

proof fn lemma_encode_in_turn(a: Seq<char>, b: Seq<char>)
    ensures
        encode_utf8(a + b) == encode_utf8(a) + encode_utf8(b),
    decreases a.len(),
{
    if a.len() == 0 {
        assert(a + b =~= b);
        assert(encode_utf8(a) + encode_utf8(b) =~= encode_utf8(b));
    } else {
        lemma_encode_in_turn(a.drop_first(), b);
        assert((a + b).drop_first() =~= a.drop_first() + b);
        assert(encode_utf8(a + b) =~= encode_utf8(a) + encode_utf8(b));
    }
}

/// A command line grows by what is inserted, with a space before it where it is not the first, and
/// never beyond its capacity.
pub proof fn law_insert_grows_within_capacity(cmdline: CmdlineModel, slug: Seq<char>)
    requires
        cmdline.insert(slug) is Ok,
    ensures
        ({
            let after = cmdline.insert(slug)->Ok_0;
            &&& after.size() == cmdline.size() + trim(slug).len() + if cmdline.boot_args.len() == 0 {
                0nat
            } else {
                1nat
            }
            &&& after.size() <= after.capacity
        }),
{
    let arg = trim(slug);
    let spaced = seq![' '] + arg;
    assert(is_ascii_chars(arg));
    assert(is_ascii_chars(spaced));
    is_ascii_chars_encode_utf8(arg);
    is_ascii_chars_encode_utf8(spaced);
    if cmdline.boot_args.len() > 0 {
        lemma_encode_in_turn(cmdline.boot_args, spaced);
        assert(cmdline.boot_args + seq![' '] + arg =~= cmdline.boot_args + spaced);
    }
}

/// `part` stands somewhere in `s`.
pub open spec fn contains_text(s: Seq<char>, part: Seq<char>) -> bool {
    exists|i: int|
        0 <= i <= s.len() - part.len() && #[trigger] s.subrange(i, i + part.len()) == part
}

/// The description of a command line error.
pub open spec fn error_text(err: CmdlineError) -> Seq<char> {
    match err {
        CmdlineError::NullTerminator => "Null terminator detected in the command line structure."@,
        CmdlineError::NoBootArgsInserted => "Cmdline cannot contain only init args."@,
        CmdlineError::InvalidCapacity => "Invalid cmdline capacity provided."@,
        CmdlineError::InvalidAscii => "String contains a non-printable ASCII character."@,
        CmdlineError::HasSpace => "String contains a space."@,
        CmdlineError::HasEquals => "String contains an equals sign."@,
        CmdlineError::MissingVal(key) => "Missing value for key "@ + key@ + "."@,
        CmdlineError::MmioSize =>
            "0-sized virtio MMIO device passed to the kernel command line builder."@,
        CmdlineError::TooLarge => "Inserting string would make command line too long."@,
        CmdlineError::NoQuoteSpace =>
            "Value that contains spaces need to be surrounded by quotes"@,
        CmdlineError::InvalidQuote => "Double quote can not be in the middle of the value"@,
    }
}

/// Calls `linux_loader::cmdline::Cmdline::insert_str`, which trims the string, refuses it where
/// it holds anything but printable ASCII or where the command line would outgrow its capacity, and
/// otherwise appends it to the boot arguments behind one space. A refused string leaves the
/// command line as it was.
#[verifier::external_body]
pub(crate) fn insert_str(cmdline: &mut Cmdline, slug: &str) -> (result: Result<(), CmdlineError>)
    ensures
        result is Ok <==> model(*old(cmdline)).insert(slug@) is Ok,
        result is Ok ==> model(*old(cmdline)).insert(slug@)->Ok_0 == model(*final(cmdline)),
        result matches Err(err) ==> model(*old(cmdline)).insert(slug@)->Err_0 == err,
        result is Err ==> model(*final(cmdline)) == model(*old(cmdline)),
{
    cmdline.insert_str(slug)
}

/// Calls the `Clone` of `linux_loader::cmdline::Cmdline`, which is derived: the copy holds the
/// same arguments and has the same capacity.
#[verifier::external_body]
pub(crate) fn clone_cmdline(cmdline: &Cmdline) -> (copy: Cmdline)
    ensures
        boot_args(copy) == boot_args(*cmdline),
        init_args(copy) == init_args(*cmdline),
        capacity(copy) == capacity(*cmdline),
{
    cmdline.clone()
}

/// Calls `linux_loader::cmdline::Cmdline::as_cstring` and hands its characters on as a string.
/// There are none where `as_cstring` refuses: boot arguments missing before init arguments, or a
/// nul among the arguments.
#[verifier::external_body]
pub(crate) fn cmdline_text(cmdline: &Cmdline) -> (text: Option<String>)
    ensures
        text is Some <==> model(*cmdline).text() is Some,
        text matches Some(s) ==> model(*cmdline).text() == Some(s@),
{
    cmdline.as_cstring().ok()?.into_string().ok()
}

/// Calls the `Display` of `linux_loader::cmdline::Error`, which writes one fixed sentence for each
/// variant, and the key into that of a missing value.
#[verifier::external_body]
pub(crate) fn error_to_string(err: &CmdlineError) -> (text: String)
    ensures
        text@ == error_text(*err),
{
    err.to_string()
}

/// Calls `str::contains`: whether the pattern matches a part of the string.
#[verifier::external_body]
pub(crate) fn str_contains(s: &str, part: &str) -> (found: bool)
    ensures
        found == contains_text(s@, part@),
{
    s.contains(part)
}

} // verus!
