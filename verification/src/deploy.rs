//! Where a chroot is deployed.

use vstd::prelude::*;
use vstd::slice::slice_to_vec;
use vstd::string::*;

use crate::args::Deploy;
use crate::ascii::DOT;
use crate::context::{context_message, Context, Failure};
use crate::path::{file_stem, join, NoFileStem};
use crate::text::display;

verus! {

/// A deployment of a chroot.
#[derive(Debug)]
pub struct Deployment {
    /// The directory of the chroot.
    pub chroot_dir: Vec<u8>,
    /// The PID file of the chroot.
    pub ref_path: Vec<u8>,
    /// What was asked for.
    pub request: Deploy,
}

/// The directory of the chroot with the given name.
pub open spec fn chroot_path(tmp: Seq<u8>, stem: Seq<u8>) -> Seq<u8> {
    crate::path::joined(tmp, stem)
}

/// The PID file of the chroot with the given name: it lies beside the directory.
pub open spec fn pid_file_path(tmp: Seq<u8>, stem: Seq<u8>) -> Seq<u8> {
    chroot_path(tmp, stem) + ".lck".spec_bytes()
}

/// What is deployed on a request: the directory of the chroot, its PID file and what
/// is asked for. There is nothing where the archive has no file stem.
pub open spec fn planned(tmp: Seq<u8>, request: Deploy) -> Option<(Seq<u8>, Seq<u8>, Deploy)> {
    match crate::path::stem_of(request.archive@) {
        Some(stem) => Some((chroot_path(tmp, stem), pid_file_path(tmp, stem), request)),
        None => None,
    }
}

/// What is said of an archive whose path, given by its bytes, has no file stem.
pub open spec fn deploy_text(archive: Seq<u8>) -> Seq<char> {
    crate::context::context_text(
        Context::FileStem,
        crate::text::displayed(archive),
        Seq::empty(),
    )
}

/// Plan the deployment of a chroot: its directory, and its PID file, are named
/// after the archive and lie in the given directory for temporary files.
pub fn deploy(tmp: &[u8], request: Deploy) -> (r: Result<Deployment, Failure<NoFileStem>>)
    ensures
        match crate::path::stem_of(request.archive@) {
            Some(stem) => r matches Ok(deployment) && {
                &&& deployment.chroot_dir@ == chroot_path(tmp@, stem)
                &&& deployment.ref_path@ == pid_file_path(tmp@, stem)
                &&& deployment.request == request
            },
            None => r == Err::<Deployment, _>(
                Failure { context: Context::FileStem, error: NoFileStem },
            ),
        },
        r is Ok <==> planned(tmp@, request) is Some,
        r matches Ok(deployment) ==> planned(tmp@, request) == Some(
            (deployment.chroot_dir@, deployment.ref_path@, deployment.request),
        ),
{
    match file_stem(request.archive.as_slice()) {
        Ok(stem) => {
            let chroot_dir = join(tmp, stem);
            let mut ref_path = slice_to_vec(chroot_dir.as_slice());
            // The stem has no extension that the new one could replace.
            ref_path.extend_from_slice(".lck".as_bytes());
            assert(ref_path@ =~= chroot_dir@ + ".lck".spec_bytes());
            Ok(Deployment { chroot_dir, ref_path, request })
        },
        Err(error) => Err(Failure { context: Context::FileStem, error }),
    }
}

/// What is said of an archive whose path has no file stem.
pub fn deploy_message(archive: &[u8]) -> (r: String)
    ensures
        r@ == crate::context::context_text(
            Context::FileStem,
            crate::text::displayed(archive@),
            Seq::empty(),
        ),
        r@ == deploy_text(archive@),
{
    let archive = display(archive);
    assert(""@ =~= Seq::<char>::empty()) by {
        reveal_strlit("");
    }
    context_message(Context::FileStem, archive.as_str(), "")
}

/// Archives with different file stems share nothing: neither the directory nor
/// the PID file of the one chroot is the directory or the PID file of the
/// other. And no chroot has its own PID file as its directory.
pub proof fn deployments_are_apart(tmp: Seq<u8>, archive: Seq<u8>, other: Seq<u8>)
    requires
        crate::path::stem_of(archive) is Some,
        crate::path::stem_of(other) is Some,
    ensures
        ({
            let a = crate::path::stem_of(archive)->0;
            let b = crate::path::stem_of(other)->0;
            &&& a != b ==> chroot_path(tmp, a) != chroot_path(tmp, b)
            &&& a != b ==> pid_file_path(tmp, a) != pid_file_path(tmp, b)
            &&& chroot_path(tmp, a) != pid_file_path(tmp, b)
        }),
{
    let a = crate::path::stem_of(archive)->0;
    let b = crate::path::stem_of(other)->0;
    let suffix = ".lck".spec_bytes();
    crate::path::stem_is_entry(archive);
    crate::path::stem_is_entry(other);
    crate::path::join_ends_in_entry(tmp, a);
    crate::path::join_ends_in_entry(tmp, b);
    reveal_strlit(".lck");
    is_ascii_spec_bytes(".lck");
    let parent = crate::path::joined(tmp, Seq::<u8>::empty());
    let n = parent.len() as int;
    assert((parent + a).skip(n) =~= a);
    assert((parent + b).skip(n) =~= b);
    if chroot_path(tmp, a) == pid_file_path(tmp, b) {
        assert((parent + b + suffix).skip(n) =~= b + suffix);
        assert(a[b.len() as int] == DOT);
    }
    if pid_file_path(tmp, a) == pid_file_path(tmp, b) {
        let pa = chroot_path(tmp, a);
        let pb = chroot_path(tmp, b);
        assert((pa + suffix).len() == (pb + suffix).len());
        assert((pa + suffix).take(pa.len() as int) =~= pa);
        assert((pb + suffix).take(pb.len() as int) =~= pb);
    }
}

/// The directory of a chroot lies in the given directory for temporary files: its
/// path is that of the latter, a separator where that does not end in one, and the
/// file stem of the archive. The PID file has the same path with `.lck` behind it.
pub proof fn chroot_lies_in_tmp(tmp: Seq<u8>, archive: Seq<u8>)
    requires
        crate::path::stem_of(archive) is Some,
    ensures
        ({
            let stem = crate::path::stem_of(archive)->0;
            let dir = chroot_path(tmp, stem);
            let separator = if tmp.len() == 0 || tmp.last() == '/' as u8 {
                Seq::<u8>::empty()
            } else {
                seq!['/' as u8]
            };
            &&& dir == tmp + separator + stem
            &&& tmp.is_prefix_of(dir)
            &&& pid_file_path(tmp, stem) == dir + seq![
                '.' as u8,
                'l' as u8,
                'c' as u8,
                'k' as u8,
            ]
        }),
{
    let stem = crate::path::stem_of(archive)->0;
    let dir = chroot_path(tmp, stem);
    crate::path::stem_is_entry(archive);
    assert(stem.contains(stem[0]));
    crate::path::join_keeps_both(tmp, stem);
    reveal_strlit(".lck");
    is_ascii_spec_bytes(".lck");
    assert(".lck".spec_bytes() =~= seq!['.' as u8, 'l' as u8, 'c' as u8, 'k' as u8]);
    let separator = if tmp.len() == 0 || tmp.last() == '/' as u8 {
        Seq::<u8>::empty()
    } else {
        seq!['/' as u8]
    };
    assert(dir.skip(dir.len() - stem.len()) == stem);
    assert(dir =~= tmp + separator + stem);
}

/// Different directories for temporary files give different chroots, unless they
/// differ in a trailing separator alone.
pub proof fn tmp_tells_chroots_apart(tmp: Seq<u8>, other: Seq<u8>, archive: Seq<u8>)
    requires
        crate::path::stem_of(archive) is Some,
        tmp != other,
        tmp != other.push('/' as u8),
        other != tmp.push('/' as u8),
    ensures
        ({
            let stem = crate::path::stem_of(archive)->0;
            &&& chroot_path(tmp, stem) != chroot_path(other, stem)
            &&& pid_file_path(tmp, stem) != pid_file_path(other, stem)
        }),
{
    let stem = crate::path::stem_of(archive)->0;
    crate::path::stem_is_entry(archive);
    assert(stem.contains(stem[0]));
    chroot_lies_in_tmp(tmp, archive);
    chroot_lies_in_tmp(other, archive);
    if chroot_path(tmp, stem) == chroot_path(other, stem) {
        crate::path::join_tells_bases_apart(tmp, other, stem);
    }
    if pid_file_path(tmp, stem) == pid_file_path(other, stem) {
        let a = chroot_path(tmp, stem);
        let b = chroot_path(other, stem);
        let suffix = ".lck".spec_bytes();
        assert((a + suffix).len() == (b + suffix).len());
        assert((a + suffix).take(a.len() as int) =~= a);
        assert((b + suffix).take(b.len() as int) =~= b);
    }
}

/// Where the chroot of an archive lies depends on the name of the archive alone,
/// not on the directory that it is in, nor on the extensions of that name.
pub proof fn archives_of_one_name_share_a_chroot(
    parent: Seq<u8>,
    stem: Seq<u8>,
    extensions: Seq<u8>,
)
    requires
        parent.len() > 0 ==> parent.last() == '/' as u8,
        stem.len() > 0,
        !stem.contains('/' as u8),
        !stem.contains('.' as u8),
        !extensions.contains('/' as u8),
        extensions.len() > 0 ==> extensions[0] == '.' as u8,
    ensures
        crate::path::stem_of(parent + (stem + extensions)) == Some(stem),
{
    let name = stem + extensions;
    if name.contains('/' as u8) {
        let i = name.index_of('/' as u8);
        assert(name[i] == '/' as u8);
        if i < stem.len() {
            assert(stem.contains(stem[i]));
        } else {
            assert(extensions.contains(extensions[i - stem.len()]));
        }
    }
    assert(name[0] == stem[0]);
    assert(stem.contains(stem[0]));
    assert(name[0] != '.' as u8);
    crate::path::stem_ends_at_first_extension(parent, name);
    let found = crate::path::stem_of(parent + name)->0;
    if found.len() < stem.len() {
        assert(stem.contains(stem[found.len() as int]));
    } else if found.len() > stem.len() {
        assert(name[stem.len() as int] == extensions[0]);
    }
    assert(found =~= stem);
}

/// An archive is deployed to the directory for temporary files, under its name
/// without extensions, wherever the archive lies. The PID file has the same path
/// with `.lck` behind it. All that was asked for is kept.
pub proof fn request_is_planned(
    tmp: Seq<u8>,
    request: Deploy,
    parent: Seq<u8>,
    stem: Seq<u8>,
    extensions: Seq<u8>,
)
    requires
        parent.len() > 0 ==> parent.last() == '/' as u8,
        stem.len() > 0,
        !stem.contains('/' as u8),
        !stem.contains('.' as u8),
        !extensions.contains('/' as u8),
        extensions.len() > 0 ==> extensions[0] == '.' as u8,
        request.archive@ == parent + (stem + extensions),
    ensures
        ({
            let separator = if tmp.len() == 0 || tmp.last() == '/' as u8 {
                Seq::<u8>::empty()
            } else {
                seq!['/' as u8]
            };
            let dir = tmp + separator + stem;
            planned(tmp, request) == Some(
                (dir, dir + seq!['.' as u8, 'l' as u8, 'c' as u8, 'k' as u8], request),
            )
        }),
{
    archives_of_one_name_share_a_chroot(parent, stem, extensions);
    chroot_lies_in_tmp(tmp, request.archive@);
}

/// A request is planned just where its archive has a file stem, and as it is.
pub proof fn request_is_kept(tmp: Seq<u8>, request: Deploy)
    ensures
        planned(tmp, request) is Some <==> crate::path::stem_of(request.archive@) is Some,
        planned(tmp, request) matches Some(plan) ==> plan.2 == request && plan.0 == chroot_path(
            tmp,
            crate::path::stem_of(request.archive@)->0,
        ) && plan.1 == plan.0 + ".lck".spec_bytes(),
{
}

/// What is said of an archive that cannot be deployed quotes its path.
pub proof fn archive_is_told(archive: Seq<u8>)
    ensures
        deploy_text(archive) == "failed to extract file stem of path `"@
            + crate::text::displayed(archive) + "`"@,
{
    crate::context::failed_step_is_told(crate::text::displayed(archive), Seq::empty());
}

} // verus!
