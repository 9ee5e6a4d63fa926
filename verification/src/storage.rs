//! How the storage of a ledger is opened: the directory is checked, the
//! lock is taken, the log is opened, and a lock that was taken is given
//! back if the log cannot be had. The file system does the work; what to
//! do next, and what failure to report, is decided here.

use vstd::prelude::*;

verus! {

/// The name of the lock file inside the directory.
pub const LOCK_FILE: &'static str = ".lock";

/// The name of the log file inside the directory.
pub const WAL_FILE: &'static str = "entries.wal";

/// Why storage could not be opened.
#[derive(Debug, Clone, Copy, PartialEq, Eq, Structural)]
pub enum StorageError {
    /// The path is not an existing directory.
    NotADirectory,
    /// Another process holds the lock.
    AlreadyLocked,
    /// The file system refused.
    Io,
}

/// Where the opening of storage stands, which says what is to be tried
/// next.
#[derive(Debug, Clone, Copy, PartialEq, Eq, Structural)]
pub enum Opening {
    /// Find out whether the path is a directory.
    CheckDirectory,
    /// Create the lock file, failing if it exists.
    TakeLock,
    /// Open the log file for reading and appending, creating it if absent.
    OpenLog,
    /// Remove the lock file again: the log could not be opened.
    ReleaseLock,
    /// Storage is open, and the lock is held.
    Open,
    /// Storage is not open, and no lock is held by this process.
    Failed(StorageError),
}

/// How an attempt on the file system went.
#[derive(Debug, Clone, Copy, PartialEq, Eq, Structural)]
pub enum Attempt {
    /// It did what was asked; for the directory check, the path is one.
    Succeeded,
    /// The file to create exists already.
    Exists,
    /// It failed otherwise; for the directory check, the path is none.
    Failed,
}

/// What can be asked of the file system.
#[derive(Debug, Clone, Copy, PartialEq, Eq, Structural)]
pub enum FileOp {
    /// Tell whether the path is an existing directory.
    IsDirectory,
    /// Create the lock file, failing if it exists.
    CreateLock,
    /// Open the log file for reading and appending, creating it if absent.
    OpenLog,
    /// Remove the lock file.
    RemoveLock,
}

impl Opening {
    /// What is to be tried next; nothing once the opening is settled.
    pub open spec fn asks(self) -> Option<FileOp> {
        match self {
            Opening::CheckDirectory => Some(FileOp::IsDirectory),
            Opening::TakeLock => Some(FileOp::CreateLock),
            Opening::OpenLog => Some(FileOp::OpenLog),
            Opening::ReleaseLock => Some(FileOp::RemoveLock),
            Opening::Open => None,
            Opening::Failed(_) => None,
        }
    }

    /// Whether nothing is left to try.
    pub open spec fn settled(self) -> bool {
        self is Open || self is Failed
    }

    /// Where the opening stands after what was to be tried went as `attempt`
    /// says.
    pub open spec fn after(self, attempt: Attempt) -> Opening {
        match self {
            Opening::CheckDirectory => if attempt == Attempt::Succeeded {
                Opening::TakeLock
            } else {
                Opening::Failed(StorageError::NotADirectory)
            },
            Opening::TakeLock => match attempt {
                Attempt::Succeeded => Opening::OpenLog,
                Attempt::Exists => Opening::Failed(StorageError::AlreadyLocked),
                Attempt::Failed => Opening::Failed(StorageError::Io),
            },
            Opening::OpenLog => if attempt == Attempt::Succeeded {
                Opening::Open
            } else {
                Opening::ReleaseLock
            },
            Opening::ReleaseLock => Opening::Failed(StorageError::Io),
            Opening::Open => Opening::Open,
            Opening::Failed(error) => Opening::Failed(error),
        }
    }

    /// Whether this process holds the lock.
    pub open spec fn holds_lock(self) -> bool {
        self is OpenLog || self is ReleaseLock || self is Open
    }

    /// Where the opening of storage starts.
    pub fn start() -> (opening: Opening)
        ensures
            opening == Opening::CheckDirectory,
    {
        Opening::CheckDirectory
    }

    /// What is to be tried next; nothing once the opening is settled.
    pub fn wanted(&self) -> (op: Option<FileOp>)
        ensures
            op == self.asks(),
            op is None <==> self.settled(),
    {
        match self {
            Opening::CheckDirectory => Some(FileOp::IsDirectory),
            Opening::TakeLock => Some(FileOp::CreateLock),
            Opening::OpenLog => Some(FileOp::OpenLog),
            Opening::ReleaseLock => Some(FileOp::RemoveLock),
            Opening::Open => None,
            Opening::Failed(_) => None,
        }
    }

    /// Whether nothing is left to try.
    pub fn is_settled(&self) -> (settled: bool)
        ensures
            settled == self.settled(),
    {
        match self {
            Opening::Open => true,
            Opening::Failed(_) => true,
            _ => false,
        }
    }

    /// Takes note of how the attempt went, and tells where the opening
    /// stands now.
    pub fn advance(self, attempt: Attempt) -> (next: Opening)
        ensures
            next == self.after(attempt),
    {
        match self {
            Opening::CheckDirectory => match attempt {
                Attempt::Succeeded => Opening::TakeLock,
                _ => Opening::Failed(StorageError::NotADirectory),
            },
            Opening::TakeLock => match attempt {
                Attempt::Succeeded => Opening::OpenLog,
                Attempt::Exists => Opening::Failed(StorageError::AlreadyLocked),
                Attempt::Failed => Opening::Failed(StorageError::Io),
            },
            Opening::OpenLog => match attempt {
                Attempt::Succeeded => Opening::Open,
                _ => Opening::ReleaseLock,
            },
            Opening::ReleaseLock => Opening::Failed(StorageError::Io),
            Opening::Open => Opening::Open,
            Opening::Failed(error) => Opening::Failed(error),
        }
    }
}

/// Opening settles within four attempts, whatever the file system does, and
/// holds the lock in the end only if storage is open. A path that is no
/// directory ends in `NotADirectory` without a lock being touched, and a
/// lock that exists ends in `AlreadyLocked`.
pub proof fn opening_settles(first: Attempt, second: Attempt, third: Attempt, fourth: Attempt)
    ensures
        ({
            let end = Opening::CheckDirectory.after(first).after(second).after(third).after(
                fourth,
            );
            &&& end.settled()
            &&& end.holds_lock() <==> end is Open
            &&& end is Open <==> first == Attempt::Succeeded && second == Attempt::Succeeded
                && third == Attempt::Succeeded
            &&& first != Attempt::Succeeded ==> Opening::CheckDirectory.after(first)
                == Opening::Failed(StorageError::NotADirectory)
            &&& first == Attempt::Succeeded && second == Attempt::Exists ==> end
                == Opening::Failed(StorageError::AlreadyLocked)
        }),
{
}

/// What of a directory matters when storage is opened in it.
pub struct Place {
    /// Whether the path is an existing directory.
    pub is_directory: bool,
    /// Whether the lock file is there.
    pub locked: bool,
    /// Whether the log file is there.
    pub has_log: bool,
}

impl Place {
    /// How a file system without faults answers `op` at this place, and what
    /// it leaves there.
    pub open spec fn answer(self, op: FileOp) -> (Attempt, Place) {
        match op {
            FileOp::IsDirectory => (
                if self.is_directory {
                    Attempt::Succeeded
                } else {
                    Attempt::Failed
                },
                self,
            ),
            FileOp::CreateLock => if self.locked {
                (Attempt::Exists, self)
            } else {
                (Attempt::Succeeded, Place { locked: true, ..self })
            },
            FileOp::OpenLog => (Attempt::Succeeded, Place { has_log: true, ..self }),
            FileOp::RemoveLock => (Attempt::Succeeded, Place { locked: false, ..self }),
        }
    }

    /// The place once storage that was open in it is closed: the lock is
    /// given back.
    pub open spec fn closed(self) -> Place {
        self.answer(FileOp::RemoveLock).1
    }

    /// Where opening storage at this place ends, and what it leaves there,
    /// on a file system without faults.
    pub open spec fn opened(self) -> (Opening, Place) {
        let (checked, first) = Opening::CheckDirectory.tried_at(self);
        let (locked, second) = checked.tried_at(first);
        locked.tried_at(second)
    }
}

impl Opening {
    /// One step of the opening at `place`, on a file system without faults:
    /// what is asked is tried there, and the answer is taken note of.
    pub open spec fn tried_at(self, place: Place) -> (Opening, Place) {
        match self.asks() {
            None => (self, place),
            Some(op) => (self.after(place.answer(op).0), place.answer(op).1),
        }
    }
}

/// At a path that is no directory, opening fails as such and leaves the
/// place as it was: no lock and no log is made. This holds whatever the
/// attempt to find the directory came to, short of success.
pub proof fn no_directory_nothing_made(place: Place, attempt: Attempt)
    requires
        !place.is_directory,
    ensures
        place.opened() == (Opening::Failed(StorageError::NotADirectory), place),
        attempt != Attempt::Succeeded ==> {
            &&& Opening::CheckDirectory.after(attempt) == Opening::Failed(
                StorageError::NotADirectory,
            )
            &&& Opening::CheckDirectory.after(attempt).asks() is None
            &&& !Opening::CheckDirectory.after(attempt).holds_lock()
        },
{
}

/// In a directory where the lock is held, opening fails as locked and leaves
/// the place as it was: the lock of the other is not removed, and the log is
/// not touched. In a directory without a lock, opening succeeds and leaves
/// the lock and the log there, so that a second opening fails as locked.
/// Once the storage is closed the lock is gone, and opening succeeds again.
pub proof fn one_holder_at_a_time(place: Place)
    requires
        place.is_directory,
    ensures
        place.locked ==> place.opened() == (
            Opening::Failed(StorageError::AlreadyLocked),
            place,
        ),
        !place.locked ==> {
            let (first, held) = place.opened();
            &&& first == Opening::Open
            &&& held == (Place { locked: true, has_log: true, ..place })
            &&& held.opened() == (Opening::Failed(StorageError::AlreadyLocked), held)
            &&& held.closed().opened().0 == Opening::Open
        },
        Opening::TakeLock.after(Attempt::Exists).asks() is None,
        forall|opening: Opening| opening.asks() == Some(FileOp::RemoveLock) ==> opening.holds_lock(),
{
}

} // verus!
