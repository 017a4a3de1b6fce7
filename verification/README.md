# chroot_deploy

Easy, fast, reference count supported deployment of chroot environments.

A chroot is deployed from a compressed archive:

    chroot-deploy deploy stage3.tar.xz --command ls /

All processes that deploy the same archive at the same time share one chroot.
The first of them unpacks the archive and mounts what is needed, the others join
its mount namespace, and the last one to leave cleans up. A PID file beside the
chroot directory counts the users.

- `src/` is a library that holds the rules, verified with Verus: where a chroot
  lies, the PID file, the course of a session, which commands are run, and what is
  said of failures. It does nothing to the system itself. Paths and arguments are
  byte strings, as they are on Unix. So is what a PID file holds; one that is not
  valid UTF-8 is refused, and stays as it is.
- `app/` is the program around it: it parses arguments, opens, locks and reads
  files, and runs commands.
- `tests/` runs the library on concrete values.

Two functions of the standard library are trusted, both in `src/text.rs`:
`String::from_utf8_lossy` and `core::str::from_utf8`.
