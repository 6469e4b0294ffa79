use jaws::cache::{AWSHandler, SsmStep};
use jaws::errors::{DataViolation, ErrorKind};
use jaws::model::{Instance, InstanceProfile, InstanceTypeInfo, InstanceTypeSpec};

fn instance(id: &str, profile: Option<&str>) -> Instance {
    Instance {
        instance_id: id.to_string(),
        instance_type: "m5.large".to_string(),
        state: "running".to_string(),
        availability_zone: None,
        tags: Vec::new(),
        public_ip_address: None,
        private_ip_address: None,
        iam_instance_profile_arn: profile.map(|p| p.to_string()),
        spot: false,
    }
}

fn profile(arn: &str, roles: &[&str]) -> InstanceProfile {
    InstanceProfile { arn: arn.to_string(), role_names: roles.iter().map(|r| r.to_string()).collect() }
}

/// Drives eligibility as a command does, counting policy listings.
fn resolve(handler: &mut AWSHandler, inst: &Instance, policies: &[&str], listings: &mut usize) -> bool {
    loop {
        match handler.instance_can_ssm(inst).unwrap() {
            SsmStep::Answer(b) => return b,
            SsmStep::ListProfiles => handler.load_instance_profiles(vec![
                profile("arn:p/shared", &["web-role"]),
                profile("arn:p/empty", &[]),
            ]),
            SsmStep::ListRolePolicies { profile_arn, role_name } => {
                assert_eq!(role_name, "web-role");
                *listings += 1;
                let names: Vec<String> = policies.iter().map(|p| p.to_string()).collect();
                handler.record_role_policies(profile_arn, &names);
            }
        }
    }
}

#[test]
fn shared_profile_lists_policies_once() {
    let mut handler = AWSHandler::new("eu-west-1".to_string());
    let a = instance("i-a", Some("arn:p/shared"));
    let b = instance("i-b", Some("arn:p/shared"));
    let mut listings = 0;
    let policies = ["ReadOnly", "AmazonSSMManagedInstanceCore"];
    assert!(resolve(&mut handler, &a, &policies, &mut listings));
    assert!(resolve(&mut handler, &b, &policies, &mut listings));
    assert_eq!(listings, 1);
}

#[test]
fn missing_policy_means_not_eligible() {
    let mut handler = AWSHandler::new("eu-west-1".to_string());
    let a = instance("i-a", Some("arn:p/shared"));
    let mut listings = 0;
    assert!(!resolve(&mut handler, &a, &["ReadOnly"], &mut listings));
    assert_eq!(handler.instance_can_ssm(&a).unwrap(), SsmStep::Answer(false));
}

#[test]
fn no_profile_needs_no_call() {
    let handler = AWSHandler::new("eu-west-1".to_string());
    assert_eq!(handler.instance_can_ssm(&instance("i-x", None)).unwrap(), SsmStep::Answer(false));
}

#[test]
fn first_use_lists_profiles() {
    let handler = AWSHandler::new("eu-west-1".to_string());
    assert_eq!(handler.instance_can_ssm(&instance("i-x", Some("arn:p/shared"))).unwrap(), SsmStep::ListProfiles);
}

#[test]
fn profile_without_role_is_a_violation() {
    let mut handler = AWSHandler::new("eu-west-1".to_string());
    handler.load_instance_profiles(vec![profile("arn:p/empty", &[])]);
    let e = handler.instance_can_ssm(&instance("i-x", Some("arn:p/empty"))).unwrap_err();
    assert_eq!(e.kind, ErrorKind::DataAssumption(DataViolation::ProfileWithoutRole { profile_arn: "arn:p/empty".to_string() }));
}

#[test]
fn unknown_profile_is_a_violation() {
    let mut handler = AWSHandler::new("eu-west-1".to_string());
    handler.load_instance_profiles(Vec::new());
    let e = handler.instance_can_ssm(&instance("i-x", Some("arn:p/other"))).unwrap_err();
    assert_eq!(e.kind, ErrorKind::DataAssumption(DataViolation::UnknownProfile { profile_arn: "arn:p/other".to_string() }));
}

#[test]
fn instance_type_catalog() {
    let mut handler = AWSHandler::new("eu-west-1".to_string());
    assert!(handler.needs_instance_types());
    handler.add_instance_types(&vec![
        InstanceTypeInfo { instance_type: "m5.large".to_string(), vcpus: 2, memory_mib: 8192 },
        InstanceTypeInfo { instance_type: "t3.nano".to_string(), vcpus: 2, memory_mib: 512 },
    ]);
    handler.add_instance_types(&vec![InstanceTypeInfo { instance_type: "r5.24xlarge".to_string(), vcpus: 96, memory_mib: 786_432 }]);
    handler.finish_instance_types();
    assert!(!handler.needs_instance_types());
    assert_eq!(handler.get_instance_spec("m5.large"), Some("2/8".to_string()));
    assert_eq!(handler.get_instance_spec("t3.nano"), Some("2/0".to_string()));
    assert_eq!(handler.get_instance_spec("r5.24xlarge"), Some("96/768".to_string()));
    assert_eq!(handler.get_instance_spec("x1.huge"), None);
    assert_eq!(handler.instance_type_spec("m5.large"), Some(InstanceTypeSpec { vcpus: 2, memory_gib: 8 }));
}
