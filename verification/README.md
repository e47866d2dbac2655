# rencfs_winfsp

The decisions behind a WinFSP file system that is backed by an encrypted store, verified with
Verus.

Windows calls the file system; the file system asks the store. Every call begins an operation
(`adapter`), which asks for one thing at a time and goes on with the reply (`protocol`). What an
operation asks and answers, for every reply it may get, is its plan (`plan`), and each operation
is proved to follow its plan exactly. Locks, buffers and the store itself stay with whoever runs
the operation.

| Module | What it is about |
| --- | --- |
| `adapter` | the calls of Windows |
| `resolve`, `path`, `utf16` | paths, from UTF-16 to the file they name |
| `open`, `context` | open files: creating, opening, closing, resizing, deleting |
| `io`, `change` | reading and writing; sizes, times and names |
| `directory`, `order`, `listing` | listings, in order, piece by piece, and as a whole |
| `attr`, `filetime`, `flags`, `status` | what Windows is told, and in which terms |
| `mount`, `security`, `system` | mounting, and who may use the volume |
| `laws` | what holds of the operations as a whole |

`app/` is the driver: it implements the interface of WinFSP, holds the locks, and answers what the
operations ask for. It needs Windows.
