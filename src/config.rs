//! Settings: the gym's portal, the member's credentials, recurring targets and
//! optional e-mail notification. Reading them from a file is the caller's part.
use vstd::prelude::*;

verus! {

#[derive(Clone, Debug)]
pub struct Config {
    pub gym: GymConfig,
    pub credentials: Credentials,
    pub targets: Vec<ClassTarget>,
    pub email: Option<EmailConfig>,
}

#[derive(Clone, Debug)]
pub struct EmailConfig {
    pub smtp_server: String,
    pub smtp_port: u16,
    pub username: String,
    pub password: String,
    pub from: String,
    pub to: String,
}

#[derive(Clone, Debug)]
pub struct GymConfig {
    pub base_url: String,
    pub club_id: u32,
}

#[derive(Clone, Debug)]
pub struct Credentials {
    pub email: String,
    pub password: String,
}

/// A recurring booking: classes whose name contains `class_name` (ignoring
/// case), optionally only on some weekdays and only at one "HH:MM" time.
#[derive(Clone, Debug)]
pub struct ClassTarget {
    pub class_name: String,
    pub days: Option<Vec<String>>,
    pub time: Option<String>,
}

} // verus!
