use vstd::prelude::*;

verus! {

/// Where the application is hosted.
#[derive(Clone, Copy, PartialEq, Eq, Structural, Debug)]
pub enum AppType {
    Local,
    Aws,
}

impl std::str::FromStr for AppType {
    type Err = ();

    /// Reads `"local"` or `"aws"`.
    fn from_str(s: &str) -> (r: Result<AppType, ()>)
        ensures
            r == Ok::<AppType, ()>(AppType::Local) <==> s@ == "local"@,
            r == Ok::<AppType, ()>(AppType::Aws) <==> s@ == "aws"@,
            r is Err <==> s@ != "local"@ && s@ != "aws"@,
    {
        proof {
            reveal_strlit("local");
            reveal_strlit("aws");
            assert("local"@.len() != "aws"@.len());
        }
        let owned = s.to_owned();
        if owned == "local".to_owned() {
            Ok(AppType::Local)
        } else if owned == "aws".to_owned() {
            Ok(AppType::Aws)
        } else {
            Err(())
        }
    }
}

} // verus!
