//! The arguments by which a kernel finds its root file system.
use crate::cmdline::{
    contains_text, insert_str, is_printable, is_white_space, law_insert_grows_within_capacity, model,
    trim, trim_end, trim_start, CmdlineModel,
};
use crate::resources::BlockDevice;
use linux_loader::cmdline::Cmdline;
use linux_loader::cmdline::Error as CmdlineError;
use vstd::prelude::*;

verus! {

/// The command line after the arguments of a root block device were inserted, and the error where
/// one of them was refused.
pub open spec fn root_arguments(cmdline: CmdlineModel, block: BlockDevice) -> (
    CmdlineModel,
    Option<CmdlineError>,
) {
    match cmdline.insert(block.root_argument()) {
        Err(err) => (cmdline, Some(err)),
        Ok(with_root) => match with_root.insert(block.access_argument()) {
            Err(err) => (with_root, Some(err)),
            Ok(with_access) => (with_access, None),
        },
    }
}

/// Puts the arguments of a root block device on the kernel command line.
pub fn insert_root_arguments(cmdline: &mut Cmdline, block: &BlockDevice) -> (result: Result<
    (),
    CmdlineError,
>)
    ensures
        root_arguments(model(*old(cmdline)), *block) == (
            model(*final(cmdline)),
            match result {
                Ok(_) => None::<CmdlineError>,
                Err(err) => Some(err),
            },
        ),
{
    let root: String = match &block.partuuid {
        Some(partuuid) => "root=PARTUUID=".to_owned().concat(partuuid.as_str()),
        None => "root=/dev/vda".to_owned(),
    };
    match insert_str(cmdline, root.as_str()) {
        Err(err) => {
            return Err(err);
        },
        Ok(_) => {},
    }
    if block.read_only {
        insert_str(cmdline, "ro")
    } else {
        insert_str(cmdline, "rw")
    }
}

/// What a root device puts on the kernel command line: which file system is the root, and how it is
/// mounted.
pub open spec fn root_text(block: BlockDevice) -> Seq<char> {
    trim(block.root_argument()) + seq![' '] + block.access_argument()
}

proof fn lemma_trim_keeps(s: Seq<char>)
    requires
        s.len() > 0,
        !is_white_space(s[0]),
        !is_white_space(s.last()),
    ensures
        trim(s) == s,
{
}

proof fn lemma_trim_end_keeps_front(s: Seq<char>)
    requires
        s.len() > 0,
        !is_white_space(s[0]),
    ensures
        trim_end(s).len() > 0,
        trim_end(s)[0] == s[0],
    decreases s.len(),
{
    if is_white_space(s.last()) {
        assert(s.len() > 1);
        lemma_trim_end_keeps_front(s.drop_last());
    }
}

proof fn lemma_root_argument(block: BlockDevice)
    ensures
        trim(block.root_argument()).len() > 0,
        trim(block.access_argument()) == block.access_argument(),
        block.partuuid is None ==> trim(block.root_argument()) == "root=/dev/vda"@,
{
    reveal_strlit("root=PARTUUID=");
    reveal_strlit("root=/dev/vda");
    reveal_strlit("ro");
    reveal_strlit("rw");
    let root = block.root_argument();
    assert(root[0] == 'r');
    assert(trim_start(root) == root);
    lemma_trim_end_keeps_front(root);
    lemma_trim_keeps(block.access_argument());
    if block.partuuid is None {
        lemma_trim_keeps(root);
    }
}

/// A root device appends its two arguments to the boot arguments, behind what stands there, and
/// leaves the rest of the command line alone. The kernel is then handed a text that holds them.
pub proof fn law_root_arguments(cmdline: CmdlineModel, block: BlockDevice)
    requires
        root_arguments(cmdline, block).1 is None,
    ensures
        ({
            let after = root_arguments(cmdline, block).0;
            &&& after.boot_args == if cmdline.boot_args.len() == 0 {
                root_text(block)
            } else {
                cmdline.boot_args + seq![' '] + root_text(block)
            }
            &&& after.init_args == cmdline.init_args
            &&& after.capacity == cmdline.capacity
            &&& contains_text(after.boot_args, root_text(block))
            &&& after.text() matches Some(text) ==> contains_text(text, root_text(block))
            &&& block.partuuid is None ==> root_text(block) == "root=/dev/vda"@ + seq![' ']
                + block.access_argument()
        }),
{
    let root = root_text(block);
    let after = root_arguments(cmdline, block).0;
    lemma_root_argument(block);
    let start = after.boot_args.len() - root.len();
    assert(after.boot_args =~= if cmdline.boot_args.len() == 0 {
        root
    } else {
        cmdline.boot_args + seq![' '] + root
    });
    assert(after.boot_args.subrange(start, start + root.len()) =~= root);
    if let Some(text) = after.text() {
        assert(text.subrange(start, start + root.len()) =~= root);
    }
}

/// The arguments of a root device are refused where they do not fit in the command line with what
/// stands there, or where the name of the partition is not printable, and in no other case.
pub proof fn law_root_arguments_refused(cmdline: CmdlineModel, block: BlockDevice)
    ensures
        root_arguments(cmdline, block).1 is None <==> {
            &&& is_printable(trim(block.root_argument()))
            &&& cmdline.size() + root_text(block).len() + if cmdline.boot_args.len() == 0 {
                0nat
            } else {
                1nat
            } <= cmdline.capacity
        },
        root_arguments(cmdline, block).1 matches Some(err) ==> if is_printable(
            trim(block.root_argument()),
        ) {
            err == CmdlineError::TooLarge
        } else {
            err == CmdlineError::InvalidAscii
        },
{
    reveal_strlit("ro");
    reveal_strlit("rw");
    lemma_root_argument(block);
    if let Ok(with_root) = cmdline.insert(block.root_argument()) {
        law_insert_grows_within_capacity(cmdline, block.root_argument());
        assert(is_printable(block.access_argument()));
    }
}

/// A root device names its partition where it has one that does not end in white space, and the first
/// disk where it has none, and behind that, after one space, says whether it can be written.
pub proof fn law_root_text(block: BlockDevice)
    ensures
        ({
            let access = if block.read_only {
                "ro"@
            } else {
                "rw"@
            };
            &&& block.partuuid is None ==> root_text(block) == "root=/dev/vda"@ + seq![' '] + access
            &&& block.partuuid matches Some(partuuid) ==> (partuuid@.len() == 0 || !is_white_space(
                partuuid@.last(),
            ) ==> root_text(block) == "root=PARTUUID="@ + partuuid@ + seq![' '] + access)
        }),
{
    reveal_strlit("root=PARTUUID=");
    reveal_strlit("root=/dev/vda");
    let root = block.root_argument();
    assert(root[0] == 'r');
    if let Some(partuuid) = block.partuuid {
        if partuuid@.len() == 0 {
            assert(root.last() == '=');
            lemma_trim_keeps(root);
        } else if !is_white_space(partuuid@.last()) {
            assert(root.last() == partuuid@.last());
            lemma_trim_keeps(root);
        }
    } else {
        lemma_trim_keeps(root);
    }
}

} // verus!
