//! Reading app services and their public domains out of the JSON that
//! `railway status --json` prints.
use vstd::prelude::*;
use crate::error::AppError;
use crate::json::{json_get, json_items, json_text, parse_document, parse_error_text, parsed_document, JsonValue};
use crate::text::{
    ascii_lower, chars_of, drop_white_space, ends_with_chars, ends_with_spec, equal_chars,
    lemma_ascii_lower_idempotent, lemma_trim_idempotent, lemma_trim_lower_commute, lower_chars, opt_text,
    skip_white_space, slice_chars, trim_spec,
};

verus! {

/// An app service of a Railway project, with its public domains.
pub struct RailwayService {
    pub service_id: Option<String>,
    pub service_name: String,
    pub custom_domains: Vec<String>,
    pub service_domains: Vec<String>,
    pub deployment_status: Option<String>,
    pub instance_statuses: Vec<String>,
}

/// A Railway service as texts.
pub struct ServiceView {
    pub service_id: Option<Seq<char>>,
    pub service_name: Seq<char>,
    pub custom_domains: Seq<Seq<char>>,
    pub service_domains: Seq<Seq<char>>,
    pub deployment_status: Option<Seq<char>>,
    pub instance_statuses: Seq<Seq<char>>,
}

/// The texts of a sequence of strings.
pub open spec fn strings_view(items: Seq<String>) -> Seq<Seq<char>> {
    items.map_values(|item: String| item@)
}

impl View for RailwayService {
    type V = ServiceView;

    open spec fn view(&self) -> ServiceView {
        ServiceView {
            service_id: opt_text(self.service_id),
            service_name: self.service_name@,
            custom_domains: strings_view(self.custom_domains@),
            service_domains: strings_view(self.service_domains@),
            deployment_status: opt_text(self.deployment_status),
            instance_statuses: strings_view(self.instance_statuses@),
        }
    }
}

/// The views of a sequence of services.
pub open spec fn services_view(items: Seq<RailwayService>) -> Seq<ServiceView> {
    items.map_values(|item: RailwayService| item@)
}

/// For each item, in order, its member `field` where that is a JSON string;
/// items without one are passed over.
pub open spec fn field_texts(items: Seq<JsonValue>, field: Seq<char>) -> Seq<Seq<char>>
    decreases items.len(),
{
    if items.len() == 0 {
        Seq::empty()
    } else {
        let rest = field_texts(items.drop_last(), field);
        match json_text(json_get(items.last(), field)) {
            Some(text) => rest.push(text),
            None => rest,
        }
    }
}

/// The texts of member `field` of the items of the array `value`, if it is
/// one; nothing otherwise.
pub open spec fn array_field_texts(value: Option<JsonValue>, field: Seq<char>) -> Seq<Seq<char>> {
    match json_items(value) {
        Some(items) => field_texts(items, field),
        None => Seq::empty(),
    }
}

/// The domains listed under `key` of a service's `domains` member.
pub open spec fn domain_values_spec(domains: JsonValue, key: Seq<char>) -> Seq<Seq<char>> {
    array_field_texts(json_get(domains, key), "domain"@)
}

/// The service that a JSON object describes: it needs a string `serviceName`
/// and a `domains` member. Its id is `serviceId`, or `id` where there is no
/// `serviceId` member; the deployment fields come from `latestDeployment`.
pub open spec fn parse_service_spec(value: JsonValue) -> Option<ServiceView> {
    match json_text(json_get(value, "serviceName"@)) {
        None => None,
        Some(name) => match json_get(value, "domains"@) {
            None => None,
            Some(domains) => {
                let id_member = match json_get(value, "serviceId"@) {
                    Some(id) => Some(id),
                    None => json_get(value, "id"@),
                };
                let deployment = json_get(value, "latestDeployment"@);
                Some(
                    ServiceView {
                        service_id: json_text(id_member),
                        service_name: name,
                        custom_domains: domain_values_spec(domains, "customDomains"@),
                        service_domains: domain_values_spec(domains, "serviceDomains"@),
                        deployment_status: match deployment {
                            Some(d) => json_text(json_get(d, "status"@)),
                            None => None,
                        },
                        instance_statuses: match deployment {
                            Some(d) => array_field_texts(json_get(d, "instances"@), "status"@),
                            None => Seq::empty(),
                        },
                    },
                )
            },
        },
    }
}

/// For each item, in order, its member `field` where that is a JSON string.
pub fn field_strings(items: &Vec<JsonValue>, field: &str) -> (texts: Vec<String>)
    ensures
        strings_view(texts@) == field_texts(items@, field@),
{
    let mut texts: Vec<String> = Vec::new();
    let mut i: usize = 0;
    while i < items.len()
        invariant
            i <= items@.len(),
            strings_view(texts@) == field_texts(items@.take(i as int), field@),
        decreases items@.len() - i,
    {
        let ghost done = items@.take(i + 1);
        assert(done.drop_last() =~= items@.take(i as int));
        assert(done.last() == items@[i as int]);
        match items[i].get(field) {
            Some(member) => match member.as_str() {
                Some(text) => {
                    texts.push(String::from_str(text));
                },
                None => {},
            },
            None => {},
        }
        i = i + 1;
        assert(strings_view(texts@) =~= field_texts(items@.take(i as int), field@));
    }
    assert(items@.take(items@.len() as int) =~= items@);
    texts
}

/// The domains listed under `key` of a service's `domains` member.
pub fn domain_values(domains: &JsonValue, key: &str) -> (values: Vec<String>)
    ensures
        strings_view(values@) == domain_values_spec(*domains, key@),
{
    match domains.get(key) {
        Some(list) => match list.as_array() {
            Some(items) => field_strings(items, "domain"),
            None => Vec::new(),
        },
        None => Vec::new(),
    }
}

/// The text of an optional JSON string value.
fn optional_text(value: Option<&JsonValue>) -> (text: Option<String>)
    ensures
        opt_text(text) == json_text(
            match value {
                Some(v) => Some(*v),
                None => None,
            },
        ),
{
    match value {
        Some(v) => match v.as_str() {
            Some(t) => Some(String::from_str(t)),
            None => None,
        },
        None => None,
    }
}

/// Reads the service that a JSON object describes.
pub fn parse_railway_service(value: &JsonValue) -> (service: Option<RailwayService>)
    ensures
        match service {
            Some(s) => parse_service_spec(*value) == Some(s@),
            None => parse_service_spec(*value) is None,
        },
{
    let service_name = match value.get("serviceName") {
        Some(name) => match name.as_str() {
            Some(text) => String::from_str(text),
            None => return None,
        },
        None => return None,
    };
    let id_member = match value.get("serviceId") {
        Some(id) => Some(id),
        None => value.get("id"),
    };
    let service_id = optional_text(id_member);
    let domains = match value.get("domains") {
        Some(domains) => domains,
        None => return None,
    };
    let custom_domains = domain_values(domains, "customDomains");
    let service_domains = domain_values(domains, "serviceDomains");
    let latest_deployment = value.get("latestDeployment");
    let (deployment_status, instance_statuses) = match latest_deployment {
        Some(deployment) => {
            let status = optional_text(deployment.get("status"));
            let statuses = match deployment.get("instances") {
                Some(instances) => match instances.as_array() {
                    Some(items) => field_strings(items, "status"),
                    None => Vec::new(),
                },
                None => Vec::new(),
            };
            (status, statuses)
        },
        None => (None, Vec::new()),
    };
    let service = RailwayService {
        service_id,
        service_name,
        custom_domains,
        service_domains,
        deployment_status,
        instance_statuses,
    };
    assert(strings_view(Seq::<String>::empty()) =~= Seq::<Seq<char>>::empty());
    Some(service)
}

/// The service that `value` itself describes, as a sequence of at most one.
pub open spec fn own_service(value: JsonValue) -> Seq<ServiceView> {
    match parse_service_spec(value) {
        Some(service) => seq![service],
        None => Seq::empty(),
    }
}

/// Every service described anywhere in `value`: an object's own service comes
/// before those inside its members, members and array items in order.
pub open spec fn services_in(value: JsonValue) -> Seq<ServiceView>
    decreases value,
{
    match value {
        JsonValue::Object(members) => own_service(value) + services_in_members(members@),
        JsonValue::Array(items) => services_in_items(items@),
        _ => Seq::empty(),
    }
}

/// The services described in the items, in order.
pub open spec fn services_in_items(items: Seq<JsonValue>) -> Seq<ServiceView>
    decreases items,
{
    if items.len() == 0 {
        Seq::empty()
    } else {
        services_in_items(items.drop_last()) + services_in(items.last())
    }
}

/// The services described in the member values, in order.
pub open spec fn services_in_members(members: Seq<(String, JsonValue)>) -> Seq<ServiceView>
    decreases members,
{
    if members.len() == 0 {
        Seq::empty()
    } else {
        services_in_members(members.drop_last()) + services_in(members.last().1)
    }
}

/// Appends every service described anywhere in `value` to `services`, in the
/// order of `services_in`.
pub fn collect_railway_services(value: &JsonValue, services: &mut Vec<RailwayService>)
    ensures
        services_view(final(services)@) == services_view(old(services)@) + services_in(*value),
    decreases value,
{
    let ghost start = services_view(services@);
    match value {
        JsonValue::Object(members) => {
            if value.contains_key("serviceName") && value.contains_key("domains") {
                match parse_railway_service(value) {
                    Some(service) => {
                        services.push(service);
                    },
                    None => {},
                }
            }
            assert(services_view(services@) =~= start + own_service(*value));
            let ghost head = services_view(services@);
            let mut i: usize = 0;
            while i < members.len()
                invariant
                    i <= members@.len(),
                    *value == JsonValue::Object(*members),
                    services_view(services@) == head + services_in_members(
                        members@.take(i as int),
                    ),
                decreases members@.len() - i,
            {
                let ghost done = members@.take(i + 1);
                assert(done.drop_last() =~= members@.take(i as int));
                proof {
                    broadcast use vstd::std_specs::vec::axiom_vec_index_decreases;

                    assert(decreases_to!(*members => members@[i as int]));
                    assert(decreases_to!(members@[i as int] => members@[i as int].1));
                    assert(decreases_to!(*value => (*value)->Object_0));
                    assert(decreases_to!(*value => members@[i as int].1));
                }
                collect_railway_services(&members[i].1, services);
                i = i + 1;
                assert(services_view(services@) =~= head + services_in_members(done));
            }
            assert(members@.take(members@.len() as int) =~= members@);
            assert(services_view(services@) =~= start + services_in(*value));
        },
        JsonValue::Array(items) => {
            let mut i: usize = 0;
            assert(services_view(services@) =~= start + services_in_items(items@.take(0)));
            while i < items.len()
                invariant
                    i <= items@.len(),
                    *value == JsonValue::Array(*items),
                    services_view(services@) == start + services_in_items(items@.take(i as int)),
                decreases items@.len() - i,
            {
                let ghost done = items@.take(i + 1);
                assert(done.drop_last() =~= items@.take(i as int));
                proof {
                    broadcast use vstd::std_specs::vec::axiom_vec_index_decreases;

                    assert(decreases_to!(*items => items@[i as int]));
                    assert(decreases_to!(*value => (*value)->Array_0));
                    assert(decreases_to!(*value => items@[i as int]));
                }
                collect_railway_services(&items[i], services);
                i = i + 1;
                assert(services_view(services@) =~= start + services_in_items(done));
            }
            assert(items@.take(items@.len() as int) =~= items@);
        },
        _ => {
            assert(services_view(services@) =~= start + services_in(*value));
        },
    }
}

/// Whether a service is infrastructure rather than a site: its trimmed,
/// ASCII lower-case name is `redis` or ends with ` db`.
pub open spec fn is_infra_spec(service_name: Seq<char>) -> bool {
    let normalized = ascii_lower(trim_spec(service_name));
    normalized == seq!['r', 'e', 'd', 'i', 's'] || ends_with_spec(normalized, seq![' ', 'd', 'b'])
}

/// Whether a service is infrastructure (Redis or a database) rather than a site.
pub fn is_infra_service(service_name: &str) -> (infra: bool)
    ensures
        infra == is_infra_spec(service_name@),
        infra == (ascii_lower(trim_spec(service_name@)) == seq!['r', 'e', 'd', 'i', 's']
            || ends_with_spec(ascii_lower(trim_spec(service_name@)), seq![' ', 'd', 'b'])),
{
    let v = chars_of(service_name);
    assert(v@.subrange(0, v.len() as int) =~= v@);
    let start = skip_white_space(&v, 0, v.len());
    let end = drop_white_space(&v, start, v.len());
    let normalized = lower_chars(&slice_chars(&v, start, end));
    let redis = vec!['r', 'e', 'd', 'i', 's'];
    let db = vec![' ', 'd', 'b'];
    assert(redis@ =~= seq!['r', 'e', 'd', 'i', 's']);
    assert(db@ =~= seq![' ', 'd', 'b']);
    equal_chars(&normalized, &redis) || ends_with_chars(&normalized, &db)
}

/// A service's domains with their kinds: the custom domains, then the Railway
/// service domains.
pub open spec fn domains_spec(service: ServiceView) -> Seq<(Seq<char>, Seq<char>)> {
    service.custom_domains.map_values(|d: Seq<char>| (d, "custom"@)) + service.service_domains.map_values(
        |d: Seq<char>| (d, "railway_service"@),
    )
}

/// The texts of a sequence of domains with their kinds.
pub open spec fn domain_pairs_view(pairs: Seq<(String, &str)>) -> Seq<(Seq<char>, Seq<char>)> {
    pairs.map_values(|p: (String, &str)| (p.0@, p.1@))
}

impl RailwayService {
    /// The service's domains with their kinds: `custom` for custom domains,
    /// then `railway_service` for Railway service domains.
    pub fn domains(&self) -> (domains: Vec<(String, &'static str)>)
        ensures
            domain_pairs_view(domains@) == domains_spec(self@),
    {
        let mut domains: Vec<(String, &'static str)> = Vec::new();
        let mut i: usize = 0;
        while i < self.custom_domains.len()
            invariant
                i <= self.custom_domains@.len(),
                domains@.len() == i,
                domain_pairs_view(domains@) == strings_view(self.custom_domains@).take(
                    i as int,
                ).map_values(|d: Seq<char>| (d, "custom"@)),
            decreases self.custom_domains@.len() - i,
        {
            let ghost before = domains@;
            let copy = self.custom_domains[i].clone();
            domains.push((copy, "custom"));
            i = i + 1;
            let ghost want = strings_view(self.custom_domains@).take(i as int).map_values(
                |d: Seq<char>| (d, "custom"@),
            );
            assert forall|k: int| 0 <= k < i implies domain_pairs_view(domains@)[k] == want[k] by {
                if k < i - 1 {
                    assert(domain_pairs_view(before)[k] == domain_pairs_view(domains@)[k]);
                } else {
                    assert(domains@[k] == (copy, "custom"));
                }
            }
            assert(domain_pairs_view(domains@) =~= want);
        }
        let ghost custom = domain_pairs_view(domains@);
        assert(strings_view(self.custom_domains@).take(i as int) =~= strings_view(
            self.custom_domains@,
        ));
        let mut j: usize = 0;
        while j < self.service_domains.len()
            invariant
                j <= self.service_domains@.len(),
                domains@.len() == custom.len() + j,
                domain_pairs_view(domains@) == custom + strings_view(self.service_domains@).take(
                    j as int,
                ).map_values(|d: Seq<char>| (d, "railway_service"@)),
            decreases self.service_domains@.len() - j,
        {
            let ghost before = domains@;
            let copy = self.service_domains[j].clone();
            domains.push((copy, "railway_service"));
            j = j + 1;
            let ghost want = custom + strings_view(self.service_domains@).take(j as int).map_values(
                |d: Seq<char>| (d, "railway_service"@),
            );
            assert forall|k: int| 0 <= k < domains@.len() implies domain_pairs_view(domains@)[k]
                == want[k] by {
                if k < domains@.len() - 1 {
                    assert(domain_pairs_view(before)[k] == domain_pairs_view(domains@)[k]);
                } else {
                    assert(domains@[k] == (copy, "railway_service"));
                }
            }
            assert(domain_pairs_view(domains@) =~= want);
        }
        assert(strings_view(self.service_domains@).take(j as int) =~= strings_view(
            self.service_domains@,
        ));
        domains
    }
}

/// The services that the output of `railway status --json` lists, in
/// document order; an error with the parser's message where the output is
/// not one JSON document.
pub fn services_from_status_output(stdout: &[u8]) -> (services: Result<Vec<RailwayService>, AppError>)
    ensures
        match services {
            Ok(found) => parsed_document(stdout@) matches Some(document) && services_view(found@)
                == services_in(document),
            Err(error) => parsed_document(stdout@) is None && error.text@ == parse_error_text(stdout@),
        },
{
    match parse_document(stdout) {
        Ok(document) => {
            let mut found: Vec<RailwayService> = Vec::new();
            collect_railway_services(&document, &mut found);
            assert(services_view(found@) =~= services_in(document));
            Ok(found)
        },
        Err(text) => Err(AppError::message(text.as_str())),
    }
}

/// A service is infrastructure exactly when its name, trimmed and in ASCII
/// lower case, is `redis` or ends with ` db`; any other name is a site.
pub proof fn lemma_infra_names(service_name: Seq<char>)
    ensures
        is_infra_spec(service_name) <==> (ascii_lower(trim_spec(service_name)) == seq![
            'r',
            'e',
            'd',
            'i',
            's',
        ] || ends_with_spec(ascii_lower(trim_spec(service_name)), seq![' ', 'd', 'b'])),
{
}

/// Whether a service is infrastructure does not depend on the ASCII case of
/// its name.
pub proof fn lemma_infra_case_insensitive(service_name: Seq<char>)
    ensures
        is_infra_spec(ascii_lower(service_name)) == is_infra_spec(service_name),
{
    lemma_trim_lower_commute(service_name);
    lemma_ascii_lower_idempotent(trim_spec(service_name));
}

/// Surrounding white space makes no difference to whether a service is
/// infrastructure.
pub proof fn lemma_infra_ignores_surrounding_space(service_name: Seq<char>)
    ensures
        is_infra_spec(trim_spec(service_name)) == is_infra_spec(service_name),
{
    lemma_trim_idempotent(service_name);
}

} // verus!
