//! The kinds of message on the upstream channel, by direction, and the
//! number that stands for each on the wire.

use vstd::prelude::*;

verus! {

/// Kinds of message that this server sends to its peer.
#[derive(Clone, Copy, Debug, PartialEq, Eq, Structural)]
pub enum DropBoundType {
    VersionQuery,
    ServerGamesQuery,
    ManifestProgress,
    ManifestLog,
    ManifestComplete,
    RpcError,
    RootCaComplete,
    ClientCertComplete,
    ListFilesComplete,
    HasBackendComplete,
    PeekFileComplete,
}

impl DropBoundType {
    /// The number of the kind on the wire.
    pub open spec fn spec_code(self) -> u32 {
        match self {
            DropBoundType::VersionQuery => 0,
            DropBoundType::ServerGamesQuery => 1,
            DropBoundType::ManifestProgress => 2,
            DropBoundType::ManifestLog => 3,
            DropBoundType::ManifestComplete => 4,
            DropBoundType::RpcError => 5,
            DropBoundType::RootCaComplete => 6,
            DropBoundType::ClientCertComplete => 7,
            DropBoundType::ListFilesComplete => 8,
            DropBoundType::HasBackendComplete => 9,
            DropBoundType::PeekFileComplete => 10,
        }
    }

    /// The kind that a number stands for.
    pub open spec fn spec_from_code(code: u32) -> Option<DropBoundType> {
        if code == 0 {
            Some(DropBoundType::VersionQuery)
        } else if code == 1 {
            Some(DropBoundType::ServerGamesQuery)
        } else if code == 2 {
            Some(DropBoundType::ManifestProgress)
        } else if code == 3 {
            Some(DropBoundType::ManifestLog)
        } else if code == 4 {
            Some(DropBoundType::ManifestComplete)
        } else if code == 5 {
            Some(DropBoundType::RpcError)
        } else if code == 6 {
            Some(DropBoundType::RootCaComplete)
        } else if code == 7 {
            Some(DropBoundType::ClientCertComplete)
        } else if code == 8 {
            Some(DropBoundType::ListFilesComplete)
        } else if code == 9 {
            Some(DropBoundType::HasBackendComplete)
        } else if code == 10 {
            Some(DropBoundType::PeekFileComplete)
        } else {
            None
        }
    }

    /// The number of the kind on the wire.
    #[verifier::when_used_as_spec(spec_code)]
    pub fn code(self) -> (code: u32)
        ensures
            code == self.spec_code(),
    {
        match self {
            DropBoundType::VersionQuery => 0,
            DropBoundType::ServerGamesQuery => 1,
            DropBoundType::ManifestProgress => 2,
            DropBoundType::ManifestLog => 3,
            DropBoundType::ManifestComplete => 4,
            DropBoundType::RpcError => 5,
            DropBoundType::RootCaComplete => 6,
            DropBoundType::ClientCertComplete => 7,
            DropBoundType::ListFilesComplete => 8,
            DropBoundType::HasBackendComplete => 9,
            DropBoundType::PeekFileComplete => 10,
        }
    }

    /// The kind that `code` stands for, if it stands for one.
    pub fn from_code(code: u32) -> (kind: Option<DropBoundType>)
        ensures
            kind == Self::spec_from_code(code),
    {
        match code {
            0 => Some(DropBoundType::VersionQuery),
            1 => Some(DropBoundType::ServerGamesQuery),
            2 => Some(DropBoundType::ManifestProgress),
            3 => Some(DropBoundType::ManifestLog),
            4 => Some(DropBoundType::ManifestComplete),
            5 => Some(DropBoundType::RpcError),
            6 => Some(DropBoundType::RootCaComplete),
            7 => Some(DropBoundType::ClientCertComplete),
            8 => Some(DropBoundType::ListFilesComplete),
            9 => Some(DropBoundType::HasBackendComplete),
            10 => Some(DropBoundType::PeekFileComplete),
            _ => None,
        }
    }

    /// A kind's number stands for that kind, and for no other.
    pub proof fn law_code_round_trip(self)
        ensures
            Self::spec_from_code(self.spec_code()) == Some(self),
            forall|code: u32| Self::spec_from_code(code) == Some(self) ==> code == self.spec_code(),
    {
    }
}

/// Kinds of message that the peer sends to this server.
#[derive(Clone, Copy, Debug, PartialEq, Eq, Structural)]
pub enum TorrentialBoundType {
    Error,
    VersionResponse,
    ServerGamesResponse,
    GenerateManifest,
    GenerateRootCa,
    GenerateClientCert,
    ListFilesQuery,
    HasBackendQuery,
    PeekFileQuery,
}

impl TorrentialBoundType {
    /// The number of the kind on the wire.
    pub open spec fn spec_code(self) -> u32 {
        match self {
            TorrentialBoundType::Error => 0,
            TorrentialBoundType::VersionResponse => 1,
            TorrentialBoundType::ServerGamesResponse => 2,
            TorrentialBoundType::GenerateManifest => 3,
            TorrentialBoundType::GenerateRootCa => 4,
            TorrentialBoundType::GenerateClientCert => 5,
            TorrentialBoundType::ListFilesQuery => 6,
            TorrentialBoundType::HasBackendQuery => 7,
            TorrentialBoundType::PeekFileQuery => 8,
        }
    }

    /// The kind that a number stands for.
    pub open spec fn spec_from_code(code: u32) -> Option<TorrentialBoundType> {
        if code == 0 {
            Some(TorrentialBoundType::Error)
        } else if code == 1 {
            Some(TorrentialBoundType::VersionResponse)
        } else if code == 2 {
            Some(TorrentialBoundType::ServerGamesResponse)
        } else if code == 3 {
            Some(TorrentialBoundType::GenerateManifest)
        } else if code == 4 {
            Some(TorrentialBoundType::GenerateRootCa)
        } else if code == 5 {
            Some(TorrentialBoundType::GenerateClientCert)
        } else if code == 6 {
            Some(TorrentialBoundType::ListFilesQuery)
        } else if code == 7 {
            Some(TorrentialBoundType::HasBackendQuery)
        } else if code == 8 {
            Some(TorrentialBoundType::PeekFileQuery)
        } else {
            None
        }
    }

    /// The number of the kind on the wire.
    #[verifier::when_used_as_spec(spec_code)]
    pub fn code(self) -> (code: u32)
        ensures
            code == self.spec_code(),
    {
        match self {
            TorrentialBoundType::Error => 0,
            TorrentialBoundType::VersionResponse => 1,
            TorrentialBoundType::ServerGamesResponse => 2,
            TorrentialBoundType::GenerateManifest => 3,
            TorrentialBoundType::GenerateRootCa => 4,
            TorrentialBoundType::GenerateClientCert => 5,
            TorrentialBoundType::ListFilesQuery => 6,
            TorrentialBoundType::HasBackendQuery => 7,
            TorrentialBoundType::PeekFileQuery => 8,
        }
    }

    /// The kind that `code` stands for, if it stands for one.
    pub fn from_code(code: u32) -> (kind: Option<TorrentialBoundType>)
        ensures
            kind == Self::spec_from_code(code),
    {
        match code {
            0 => Some(TorrentialBoundType::Error),
            1 => Some(TorrentialBoundType::VersionResponse),
            2 => Some(TorrentialBoundType::ServerGamesResponse),
            3 => Some(TorrentialBoundType::GenerateManifest),
            4 => Some(TorrentialBoundType::GenerateRootCa),
            5 => Some(TorrentialBoundType::GenerateClientCert),
            6 => Some(TorrentialBoundType::ListFilesQuery),
            7 => Some(TorrentialBoundType::HasBackendQuery),
            8 => Some(TorrentialBoundType::PeekFileQuery),
            _ => None,
        }
    }

    /// A kind's number stands for that kind, and for no other.
    pub proof fn law_code_round_trip(self)
        ensures
            Self::spec_from_code(self.spec_code()) == Some(self),
            forall|code: u32| Self::spec_from_code(code) == Some(self) ==> code == self.spec_code(),
    {
    }
}

} // verus!
