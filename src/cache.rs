//! The metadata cache: lookups that are expensive at the provider, made at
//! most once per command and served from memory afterwards.
use vstd::prelude::*;
use crate::errors::{DataViolation, ErrorKind, JawsError};
use crate::json::{on_demand_price, price_from_document};
use crate::model::{Instance, InstanceProfile, InstanceTypeInfo, InstanceTypeSpec, Reservation};
use crate::money::MAX_AMOUNT;
use crate::text::{decimal_text, u64_text};

verus! {

/// The region whose pricing catalog holds the on-demand prices of every
/// region; prices are not published in all of them.
pub const PRICING_REGION: &'static str = "eu-central-1";

/// The service whose products the pricing catalog is searched for.
pub const PRICING_SERVICE_CODE: &'static str = "AmazonEC2";

/// The page size used when the instance-type catalog is listed.
pub const TYPE_BATCH_SIZE: i32 = 100;

/// The managed policy whose presence in an instance's role allows a remote
/// session to be opened on it.
pub const SSM_POLICY_NAME: &'static str = "AmazonSSMManagedInstanceCore";

/// The value stored last under `key` in an association list.
pub open spec fn table_lookup<V>(t: Seq<(String, V)>, key: Seq<char>) -> Option<V>
    decreases t.len(),
{
    if t.len() == 0 {
        None
    } else if t.last().0@ == key {
        Some(t.last().1)
    } else {
        table_lookup(t.drop_last(), key)
    }
}

/// The index of the entry that `table_lookup` reads.
fn find_entry<V>(t: &Vec<(String, V)>, key: &str) -> (r: Option<usize>)
    ensures
        r matches Some(i) ==> i < t@.len() && t@[i as int].0@ == key@ && table_lookup(t@, key@)
            == Some(t@[i as int].1),
        r is None ==> table_lookup(t@, key@) is None,
{
    let wanted = String::from_str(key);
    let mut i = t.len();
    assert(t@.take(t@.len() as int) =~= t@);
    while i > 0
        invariant
            i <= t@.len(),
            wanted@ == key@,
            table_lookup(t@, key@) == table_lookup(t@.take(i as int), key@),
        decreases i,
    {
        let ghost prefix = t@.take(i as int);
        assert(prefix.drop_last() =~= t@.take(i - 1));
        assert(prefix.last() == t@[i - 1]);
        if t[i - 1].0 == wanted {
            return Some(i - 1);
        }
        i = i - 1;
    }
    None
}

proof fn lemma_wf_same_rates(a: AWSHandler, b: AWSHandler)
    requires
        a.wf(),
        a.rate_table() == b.rate_table(),
    ensures
        b.wf(),
{
    assert forall|i: int| 0 <= i < b.rate_table().len() implies 0 <= #[trigger] b.rate_table()[i].1
        <= MAX_AMOUNT by {
        assert(a.rate_table()[i] == b.rate_table()[i]);
    }
}

/// What must happen before remote-session eligibility of an instance is known.
#[derive(Clone, Debug, PartialEq, Eq)]
pub enum SsmStep {
    /// The answer is known.
    Answer(bool),
    /// The account's instance profiles must be listed and handed to
    /// `load_instance_profiles`.
    ListProfiles,
    /// The managed policies attached to `role_name` must be listed and handed
    /// to `record_role_policies` for `profile_arn`.
    ListRolePolicies { profile_arn: String, role_name: String },
}

/// The text by which an instance type's hardware is shown: `vcpus/GiB`.
pub open spec fn spec_text(s: InstanceTypeSpec) -> Seq<char> {
    decimal_text(s.vcpus as nat) + seq!['/'] + decimal_text(s.memory_gib as nat)
}

/// What the catalog entry `info` records: its memory in whole GiB.
pub open spec fn spec_of_info(info: InstanceTypeInfo) -> InstanceTypeSpec {
    InstanceTypeSpec { vcpus: info.vcpus, memory_gib: info.memory_mib / 1024 }
}

pub open spec fn filter_view(f: Seq<(String, String)>) -> Seq<(Seq<char>, Seq<char>)> {
    f.map_values(|p: (String, String)| (p.0@, p.1@))
}

/// The term filters of an on-demand price query for `instance_type` in
/// `region`: shared tenancy, no pre-installed software, compute instances,
/// Linux, capacity in use.
pub open spec fn odm_filters_spec(region: Seq<char>, instance_type: Seq<char>) -> Seq<
    (Seq<char>, Seq<char>),
> {
    seq![
        ("instanceType"@, instance_type),
        ("regionCode"@, region),
        ("preInstalledSw"@, "NA"@),
        ("productfamily"@, "compute instance"@),
        ("tenancy"@, "Shared"@),
        ("operatingSystem"@, "Linux"@),
        ("capacityStatus"@, "Used"@),
    ]
}

/// Whether one of `names` is the remote-session policy.
pub open spec fn grants_ssm(names: Seq<String>) -> bool {
    exists|i: int| 0 <= i < names.len() && #[trigger] names[i]@ == "AmazonSSMManagedInstanceCore"@
}

/// The lookup tables of one command, owned by its handler and filled lazily.
pub struct AWSHandler {
    region: String,
    instance_profile_cache: Vec<(String, InstanceProfile)>,
    profiles_loaded: bool,
    instance_profile_ssm_mapping_cache: Vec<(String, bool)>,
    specmap: Vec<(String, InstanceTypeSpec)>,
    specs_loaded: bool,
    odm_rate_cache: Vec<(String, i128)>,
}

impl AWSHandler {
    /// The region all queries are made for.
    pub closed spec fn region_view(&self) -> Seq<char> {
        self.region@
    }

    /// Instance profiles by ARN.
    pub closed spec fn profile_table(&self) -> Seq<(String, InstanceProfile)> {
        self.instance_profile_cache@
    }

    /// Whether the account's instance profiles have been listed.
    pub closed spec fn profiles_listed(&self) -> bool {
        self.profiles_loaded
    }

    /// Remote-session eligibility by instance-profile ARN.
    pub closed spec fn ssm_table(&self) -> Seq<(String, bool)> {
        self.instance_profile_ssm_mapping_cache@
    }

    /// Hardware by instance type.
    pub closed spec fn spec_table(&self) -> Seq<(String, InstanceTypeSpec)> {
        self.specmap@
    }

    /// Whether the whole instance-type catalog has been read.
    pub closed spec fn specs_listed(&self) -> bool {
        self.specs_loaded
    }

    /// On-demand hourly price, in units, by instance type.
    pub closed spec fn rate_table(&self) -> Seq<(String, i128)> {
        self.odm_rate_cache@
    }

    /// Cached prices are amounts that the report can show.
    pub open spec fn wf(&self) -> bool {
        forall|i: int|
            0 <= i < self.rate_table().len() ==> 0 <= #[trigger] self.rate_table()[i].1
                <= MAX_AMOUNT
    }

    /// The cached on-demand rate of `instance_type`.
    pub open spec fn rate_of(&self, instance_type: Seq<char>) -> Option<i128> {
        table_lookup(self.rate_table(), instance_type)
    }

    /// What `instance_can_ssm` decides for `instance` in this state.
    pub open spec fn ssm_step_spec(&self, instance: Instance) -> Result<SsmStep, DataViolation> {
        match instance.iam_instance_profile_arn {
            None => Ok(SsmStep::Answer(false)),
            Some(arn) => match table_lookup(self.ssm_table(), arn@) {
                Some(answer) => Ok(SsmStep::Answer(answer)),
                None => if !self.profiles_listed() {
                    Ok(SsmStep::ListProfiles)
                } else {
                    match table_lookup(self.profile_table(), arn@) {
                        None => Err(DataViolation::UnknownProfile { profile_arn: arn }),
                        Some(profile) => if profile.role_names@.len() == 0 {
                            Err(DataViolation::ProfileWithoutRole { profile_arn: arn })
                        } else {
                            Ok(
                                SsmStep::ListRolePolicies {
                                    profile_arn: arn,
                                    role_name: profile.role_names@[0],
                                },
                            )
                        },
                    }
                },
            },
        }
    }

    /// A handler for `region` with every table empty.
    pub fn new(region: String) -> (r: AWSHandler)
        ensures
            r.wf(),
            r.region_view() == region@,
            r.profile_table().len() == 0,
            !r.profiles_listed(),
            r.ssm_table().len() == 0,
            r.spec_table().len() == 0,
            !r.specs_listed(),
            r.rate_table().len() == 0,
    {
        AWSHandler {
            region,
            instance_profile_cache: Vec::new(),
            profiles_loaded: false,
            instance_profile_ssm_mapping_cache: Vec::new(),
            specmap: Vec::new(),
            specs_loaded: false,
            odm_rate_cache: Vec::new(),
        }
    }

    /// The region all queries are made for.
    pub fn region(&self) -> (r: String)
        ensures
            r@ == self.region_view(),
    {
        self.region.clone()
    }

    // ---------------------------------------------------------------------
    // On-demand rates

    /// The cached on-demand hourly rate of `instance_type`, in units; `None`
    /// until a price list for it has been recorded.
    pub fn get_odm_rate(&self, instance_type: &str) -> (r: Option<i128>)
        requires
            self.wf(),
        ensures
            r == self.rate_of(instance_type@),
            r matches Some(v) ==> 0 <= v <= MAX_AMOUNT,
    {
        match find_entry(&self.odm_rate_cache, instance_type) {
            Some(i) => Some(self.odm_rate_cache[i].1),
            None => None,
        }
    }

    /// The term filters of the price query for `instance_type`, as
    /// (field, value) pairs, in this handler's region.
    pub fn odm_filters(&self, instance_type: &str) -> (r: Vec<(String, String)>)
        ensures
            filter_view(r@) == odm_filters_spec(self.region_view(), instance_type@),
    {
        let mut r: Vec<(String, String)> = Vec::new();
        r.push((String::from_str("instanceType"), String::from_str(instance_type)));
        r.push((String::from_str("regionCode"), self.region.clone()));
        r.push((String::from_str("preInstalledSw"), String::from_str("NA")));
        r.push((String::from_str("productfamily"), String::from_str("compute instance")));
        r.push((String::from_str("tenancy"), String::from_str("Shared")));
        r.push((String::from_str("operatingSystem"), String::from_str("Linux")));
        r.push((String::from_str("capacityStatus"), String::from_str("Used")));
        assert(filter_view(r@) =~= odm_filters_spec(self.region_view(), instance_type@));
        r
    }

    /// The type of the first reservation whose on-demand rate is not cached yet.
    pub fn next_unpriced_type(&self, reservations: &Vec<Reservation>) -> (r: Option<String>)
        ensures
            r is None <==> forall|i: int|
                0 <= i < reservations@.len() ==> #[trigger] self.rate_of(
                    reservations@[i].instance_type@,
                ) is Some,
            r matches Some(t) ==> exists|i: int|
                0 <= i < reservations@.len() && #[trigger] reservations@[i].instance_type@ == t@
                    && self.rate_of(t@) is None,
    {
        let mut i: usize = 0;
        while i < reservations.len()
            invariant
                i <= reservations@.len(),
                forall|j: int|
                    0 <= j < i ==> #[trigger] self.rate_of(reservations@[j].instance_type@) is Some,
            decreases reservations@.len() - i,
        {
            let t = &reservations[i].instance_type;
            if find_entry(&self.odm_rate_cache, t.as_str()).is_none() {
                assert(self.rate_of(reservations@[i as int].instance_type@) is None);
                return Some(t.clone());
            }
            i = i + 1;
        }
        None
    }

    /// Records the result of the price query for `instance_type`. The query
    /// must have matched exactly one product, whose document must hold the
    /// price; otherwise the cache is left as it was.
    pub fn record_odm_price_list(&mut self, instance_type: &str, price_list: &Vec<String>) -> (r:
        Result<i128, JawsError>)
        requires
            old(self).wf(),
        ensures
            final(self).wf(),
            price_list@.len() != 1 ==> *final(self) == *old(self) && (r matches Err(e) && e.kind
                == ErrorKind::DataAssumption(
                DataViolation::PricingMatches { count: price_list@.len() as usize },
            )),
            price_list@.len() == 1 ==> match on_demand_price(price_list@[0]@) {
                Ok(units) => r == Ok::<i128, JawsError>(units as i128) && final(self).rate_table()
                    == old(self).rate_table().push((final(self).rate_table().last().0, units as i128))
                    && final(self).rate_table().last().0@ == instance_type@ && final(self).same_but_rates(*old(self)),
                Err(v) => *final(self) == *old(self) && (r matches Err(e) && e.kind
                    == ErrorKind::DataAssumption(v)),
            },
    {
        if price_list.len() != 1 {
            return Err(JawsError::data(DataViolation::PricingMatches { count: price_list.len() }));
        }
        match price_from_document(price_list[0].as_str()) {
            Err(v) => Err(JawsError::data(v)),
            Ok(units) => {
                let ghost before = self.odm_rate_cache@;
                let ghost old_h = *self;
                assert(old_h.wf());
                self.odm_rate_cache.push((String::from_str(instance_type), units));
                assert forall|i: int| 0 <= i < self.rate_table().len() implies 0
                    <= #[trigger] self.rate_table()[i].1 <= MAX_AMOUNT by {
                    if i < before.len() {
                        assert(self.rate_table()[i] == before[i]);
                        assert(old_h.rate_table()[i] == before[i]);
                        assert(0 <= old_h.rate_table()[i].1 <= MAX_AMOUNT);
                    }
                }
                Ok(units)
            },
        }
    }

    // ---------------------------------------------------------------------
    // Remote-session eligibility

    /// Decides what is needed to know whether a remote session can be opened
    /// on `instance`. An instance without a profile is never eligible, and is
    /// answered without any listing; otherwise the answer is cached by the
    /// profile's ARN, so every instance sharing a profile shares one answer.
    pub fn instance_can_ssm(&self, instance: &Instance) -> (r: Result<SsmStep, JawsError>)
        ensures
            r is Ok <==> self.ssm_step_spec(*instance) is Ok,
            r matches Ok(step) ==> self.ssm_step_spec(*instance) == Ok::<SsmStep, DataViolation>(
                step,
            ),
            r matches Err(e) ==> self.ssm_step_spec(*instance) == Err::<SsmStep, DataViolation>(
                e.kind->DataAssumption_0,
            ) && e.kind is DataAssumption,
    {
        let arn = match &instance.iam_instance_profile_arn {
            None => {
                return Ok(SsmStep::Answer(false));
            },
            Some(arn) => arn,
        };
        if let Some(i) = find_entry(&self.instance_profile_ssm_mapping_cache, arn.as_str()) {
            return Ok(SsmStep::Answer(self.instance_profile_ssm_mapping_cache[i].1));
        }
        if !self.profiles_loaded {
            return Ok(SsmStep::ListProfiles);
        }
        match find_entry(&self.instance_profile_cache, arn.as_str()) {
            None => Err(JawsError::data(DataViolation::UnknownProfile { profile_arn: arn.clone() })),
            Some(i) => {
                let profile = &self.instance_profile_cache[i].1;
                if profile.role_names.len() == 0 {
                    Err(
                        JawsError::data(
                            DataViolation::ProfileWithoutRole { profile_arn: arn.clone() },
                        ),
                    )
                } else {
                    Ok(
                        SsmStep::ListRolePolicies {
                            profile_arn: arn.clone(),
                            role_name: profile.role_names[0].clone(),
                        },
                    )
                }
            },
        }
    }

    /// Caches the account's instance profiles by ARN.
    pub fn load_instance_profiles(&mut self, profiles: Vec<InstanceProfile>)
        requires
            old(self).wf(),
        ensures
            final(self).wf(),
            final(self).profiles_listed(),
            final(self).profile_table().len() == old(self).profile_table().len() + profiles@.len(),
            forall|i: int|
                0 <= i < profiles@.len() ==> #[trigger] final(self).profile_table()[old(
                    self,
                ).profile_table().len() + i] == (profiles@[i].arn, profiles@[i]),
            final(self).profile_table().take(old(self).profile_table().len() as int)
                == old(self).profile_table(),
            final(self).region_view() == old(self).region_view(),
            final(self).ssm_table() == old(self).ssm_table(),
            final(self).spec_table() == old(self).spec_table(),
            final(self).specs_listed() == old(self).specs_listed(),
            final(self).rate_table() == old(self).rate_table(),
    {
        let ghost start = self.instance_profile_cache@;
        let ghost h0 = *self;
        for profile in it: profiles
            invariant
                it.seq() == profiles@,
                self.instance_profile_cache@.len() == start.len() + it.index(),
                self.instance_profile_cache@.take(start.len() as int) == start,
                forall|j: int|
                    0 <= j < it.index() ==> #[trigger] self.instance_profile_cache@[start.len() + j]
                        == (profiles@[j].arn, profiles@[j]),
                self.region@ == h0.region@,
                self.instance_profile_ssm_mapping_cache@ == h0.instance_profile_ssm_mapping_cache@,
                self.specmap@ == h0.specmap@,
                self.specs_loaded == h0.specs_loaded,
                self.odm_rate_cache@ == h0.odm_rate_cache@,
                start == h0.instance_profile_cache@,
        {
            let ghost before = self.instance_profile_cache@;
            let ghost k = it.index();
            self.instance_profile_cache.push((profile.arn.clone(), profile));
            assert(self.instance_profile_cache@.take(start.len() as int) =~= start) by {
                assert(before.take(start.len() as int) == start);
                assert forall|m: int| 0 <= m < start.len() implies self.instance_profile_cache@[m]
                    == before[m] by {}
            }
            assert forall|j: int| 0 <= j < k + 1 implies #[trigger] self.instance_profile_cache@[start.len() + j]
                == (profiles@[j].arn, profiles@[j]) by {
                if j < k {
                    assert(self.instance_profile_cache@[start.len() + j] == before[start.len() + j]);
                }
            }
        }
        proof {
            lemma_wf_same_rates(h0, *self);
        }
        self.profiles_loaded = true;
    }

    /// Records the managed policies of the role behind `profile_arn` and
    /// returns whether they grant remote sessions. The answer is cached by
    /// the profile's ARN.
    pub fn record_role_policies(&mut self, profile_arn: String, policy_names: &Vec<String>) -> (r:
        bool)
        requires
            old(self).wf(),
        ensures
            final(self).wf(),
            r == grants_ssm(policy_names@),
            final(self).ssm_table() == old(self).ssm_table().push((profile_arn, r)),
            final(self).region_view() == old(self).region_view(),
            final(self).profile_table() == old(self).profile_table(),
            final(self).profiles_listed() == old(self).profiles_listed(),
            final(self).spec_table() == old(self).spec_table(),
            final(self).specs_listed() == old(self).specs_listed(),
            final(self).rate_table() == old(self).rate_table(),
    {
        let wanted = String::from_str(SSM_POLICY_NAME);
        proof {
            reveal_strlit("AmazonSSMManagedInstanceCore");
        }
        let mut found = false;
        let mut i: usize = 0;
        while i < policy_names.len()
            invariant
                i <= policy_names@.len(),
                wanted@ == "AmazonSSMManagedInstanceCore"@,
                found == exists|j: int|
                    0 <= j < i && #[trigger] policy_names@[j]@ == "AmazonSSMManagedInstanceCore"@,
            decreases policy_names@.len() - i,
        {
            if policy_names[i] == wanted {
                found = true;
            }
            i = i + 1;
        }
        let ghost h0 = *self;
        self.instance_profile_ssm_mapping_cache.push((profile_arn, found));
        proof {
            lemma_wf_same_rates(h0, *self);
        }
        found
    }

    // ---------------------------------------------------------------------
    // Instance-type hardware

    /// Whether the instance-type catalog still has to be read: it is read
    /// whole, page by page, the first time any type is looked up.
    pub fn needs_instance_types(&self) -> (r: bool)
        ensures
            r == !self.specs_listed(),
    {
        !self.specs_loaded
    }

    /// Adds one page of the instance-type catalog.
    pub fn add_instance_types(&mut self, page: &Vec<InstanceTypeInfo>)
        requires
            old(self).wf(),
        ensures
            final(self).wf(),
            final(self).spec_table() == old(self).spec_table() + page@.map_values(
                |info: InstanceTypeInfo| (info.instance_type, spec_of_info(info)),
            ),
            final(self).specs_listed() == old(self).specs_listed(),
            final(self).region_view() == old(self).region_view(),
            final(self).profile_table() == old(self).profile_table(),
            final(self).profiles_listed() == old(self).profiles_listed(),
            final(self).ssm_table() == old(self).ssm_table(),
            final(self).rate_table() == old(self).rate_table(),
    {
        let ghost h0 = *self;
        let ghost added = page@.map_values(
            |info: InstanceTypeInfo| (info.instance_type, spec_of_info(info)),
        );
        let mut i: usize = 0;
        while i < page.len()
            invariant
                i <= page@.len(),
                added.len() == page@.len(),
                added == page@.map_values(
                    |info: InstanceTypeInfo| (info.instance_type, spec_of_info(info)),
                ),
                self.specmap@ == h0.specmap@ + added.take(i as int),
                self.region@ == h0.region@,
                self.instance_profile_cache@ == h0.instance_profile_cache@,
                self.profiles_loaded == h0.profiles_loaded,
                self.instance_profile_ssm_mapping_cache@ == h0.instance_profile_ssm_mapping_cache@,
                self.specs_loaded == h0.specs_loaded,
                self.odm_rate_cache@ == h0.odm_rate_cache@,
            decreases page@.len() - i,
        {
            let info = &page[i];
            let spec = InstanceTypeSpec { vcpus: info.vcpus, memory_gib: info.memory_mib / 1024 };
            self.specmap.push((info.instance_type.clone(), spec));
            assert(added.take(i + 1) =~= added.take(i as int).push(added[i as int]));
            i = i + 1;
        }
        assert(added.take(page@.len() as int) =~= added);
        proof {
            lemma_wf_same_rates(h0, *self);
        }
    }

    /// Marks the instance-type catalog as read whole.
    pub fn finish_instance_types(&mut self)
        requires
            old(self).wf(),
        ensures
            final(self).wf(),
            final(self).specs_listed(),
            final(self).spec_table() == old(self).spec_table(),
            final(self).region_view() == old(self).region_view(),
            final(self).profile_table() == old(self).profile_table(),
            final(self).profiles_listed() == old(self).profiles_listed(),
            final(self).ssm_table() == old(self).ssm_table(),
            final(self).rate_table() == old(self).rate_table(),
    {
        let ghost h0 = *self;
        self.specs_loaded = true;
        proof {
            lemma_wf_same_rates(h0, *self);
        }
    }

    /// The hardware of `instance_type`, if the catalog lists it.
    pub fn instance_type_spec(&self, instance_type: &str) -> (r: Option<InstanceTypeSpec>)
        ensures
            r == table_lookup(self.spec_table(), instance_type@),
    {
        match find_entry(&self.specmap, instance_type) {
            Some(i) => Some(self.specmap[i].1),
            None => None,
        }
    }

    /// The hardware of `instance_type` as `vcpus/GiB`, if the catalog lists it.
    pub fn get_instance_spec(&self, instance_type_key: &str) -> (r: Option<String>)
        ensures
            r is Some <==> table_lookup(self.spec_table(), instance_type_key@) is Some,
            r matches Some(t) ==> t@ == spec_text(
                table_lookup(self.spec_table(), instance_type_key@).unwrap(),
            ),
    {
        match self.instance_type_spec(instance_type_key) {
            Some(spec) => {
                let mut text = u64_text(spec.vcpus as u64);
                text.append("/");
                let memory = u64_text(spec.memory_gib);
                text.append(memory.as_str());
                proof {
                    reveal_strlit("/");
                }
                Some(text)
            },
            None => None,
        }
    }

    /// Every table but the rates is as in `other`.
    pub open spec fn same_but_rates(&self, other: AWSHandler) -> bool {
        &&& self.region_view() == other.region_view()
        &&& self.profile_table() == other.profile_table()
        &&& self.profiles_listed() == other.profiles_listed()
        &&& self.ssm_table() == other.ssm_table()
        &&& self.spec_table() == other.spec_table()
        &&& self.specs_listed() == other.specs_listed()
    }
}

/// The policies behind an instance profile are listed at most once per
/// command: once they are recorded for a profile, every instance that uses
/// that profile, whichever it is, is answered from the cache.
pub proof fn lemma_policies_listed_once(
    before: AWSHandler,
    after: AWSHandler,
    profile_arn: String,
    answer: bool,
    instance: Instance,
)
    requires
        after.ssm_table() == before.ssm_table().push((profile_arn, answer)),
        instance.iam_instance_profile_arn matches Some(arn) && arn@ == profile_arn@,
    ensures
        after.ssm_step_spec(instance) == Ok::<SsmStep, DataViolation>(SsmStep::Answer(answer)),
{
    let t = after.ssm_table();
    assert(t.last() == (profile_arn, answer));
}

/// A cached rate is within the range the report can show.
pub proof fn lemma_rate_in_range(h: AWSHandler, instance_type: Seq<char>)
    requires
        h.wf(),
    ensures
        h.rate_of(instance_type) matches Some(v) ==> 0 <= v <= MAX_AMOUNT,
{
    lemma_lookup_in_table(h.rate_table(), instance_type);
    if let Some(v) = h.rate_of(instance_type) {
        let i = choose|i: int| 0 <= i < h.rate_table().len() && h.rate_table()[i].1 == v;
        assert(0 <= h.rate_table()[i].1 <= MAX_AMOUNT);
    }
}

proof fn lemma_lookup_in_table<V>(t: Seq<(String, V)>, key: Seq<char>)
    ensures
        table_lookup(t, key) matches Some(v) ==> exists|i: int| 0 <= i < t.len() && t[i].1 == v,
    decreases t.len(),
{
    if t.len() > 0 {
        if t.last().0@ == key {
            assert(t[t.len() - 1].1 == t.last().1);
        } else {
            lemma_lookup_in_table(t.drop_last(), key);
            if let Some(v) = table_lookup(t, key) {
                let i = choose|i: int| 0 <= i < t.drop_last().len() && t.drop_last()[i].1 == v;
                assert(t[i] == t.drop_last()[i]);
            }
        }
    }
}

} // verus!
