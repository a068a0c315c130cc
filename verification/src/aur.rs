//! Looking a package up in the AUR: the addresses asked and how the answer
//! of the AUR RPC interface is read.
use vstd::prelude::*;
use vstd::string::*;

verus! {

/// Client of the AUR.
pub struct AurClient;

/// What `fetch_pkgbuild` reads of an answer of the AUR `info` request.
pub struct AurInfo {
    /// The `results` field when it is an array: for each entry, its
    /// `PackageBase` when that is a string.
    pub results: Option<Vec<Option<String>>>,
}

/// Why no PKGBUILD address could be derived from an AUR answer.
pub enum AurError {
    /// The answer has no `results` array.
    NoResults,
    /// The `results` array is empty.
    NotFound,
    /// The first result has no `PackageBase` string.
    MissingPackageBase,
}

/// The package base that an AUR answer names, or why there is none.
pub open spec fn package_base_of(info: &AurInfo) -> Result<Seq<char>, AurError> {
    match info.results {
        None => Err(AurError::NoResults),
        Some(rs) => if rs@.len() == 0 {
            Err(AurError::NotFound)
        } else {
            match rs@[0] {
                Some(b) => Ok(b@),
                None => Err(AurError::MissingPackageBase),
            }
        },
    }
}

impl AurClient {
    /// The RPC address that describes `package`.
    pub fn info_url(package: &str) -> (r: String)
        ensures
            r@ == "https://aur.archlinux.org/rpc/v5/info?arg[]="@ + package@,
    {
        let mut u = "https://aur.archlinux.org/rpc/v5/info?arg[]=".to_owned();
        u.append(package);
        u
    }

    /// The address of the PKGBUILD of a package base.
    pub fn pkgbuild_url(pkgbase: &str) -> (r: String)
        ensures
            r@ == "https://aur.archlinux.org/cgit/aur.git/plain/PKGBUILD?h="@ + pkgbase@,
    {
        let mut u = "https://aur.archlinux.org/cgit/aur.git/plain/PKGBUILD?h=".to_owned();
        u.append(pkgbase);
        u
    }

    /// The package base named by an AUR answer: that of the first result.
    pub fn package_base(info: &AurInfo) -> (r: Result<String, AurError>)
        ensures
            match (r, package_base_of(info)) {
                (Ok(b), Ok(s)) => b@ == s,
                (Err(e), Err(f)) => e == f,
                _ => false,
            },
    {
        match &info.results {
            None => Err(AurError::NoResults),
            Some(rs) => {
                if rs.len() == 0 {
                    Err(AurError::NotFound)
                } else {
                    match &rs[0] {
                        Some(b) => Ok(b.clone()),
                        None => Err(AurError::MissingPackageBase),
                    }
                }
            },
        }
    }
}

impl AurError {
    /// The message shown for the error, for `package`.
    pub fn message(&self, package: &str) -> (r: String)
        ensures
            r@ == match self {
                AurError::NoResults => "No results found for package: "@ + package@,
                AurError::NotFound => "Package not found in AUR: "@ + package@,
                AurError::MissingPackageBase => "Missing PackageBase field"@,
            },
    {
        match self {
            AurError::NoResults => {
                let mut m = "No results found for package: ".to_owned();
                m.append(package);
                m
            },
            AurError::NotFound => {
                let mut m = "Package not found in AUR: ".to_owned();
                m.append(package);
                m
            },
            AurError::MissingPackageBase => "Missing PackageBase field".to_owned(),
        }
    }
}

} // verus!
