//! Planning an inventory sync: which site rows to write for the domains of
//! the Railway services, and which services to report as having none.
use vstd::prelude::*;
use crate::railway::{
    domains_spec, domain_pairs_view, is_infra_service, is_infra_spec, services_view,
    strings_view, RailwayService, ServiceView,
};
use crate::text::{opt_text, str_equal};
use crate::urls::{domain_to_base_url, domain_to_base_url_spec, join_url, join_url_spec};

verus! {

/// The row that the sync writes for one domain of a service.
pub struct SiteUpsert {
    pub name: String,
    pub base_url: String,
    pub critical_css_url: String,
    pub external_service_id: Option<String>,
    pub service_name: String,
    pub domain_type: &'static str,
    pub domain: String,
}

/// A site row as texts.
pub struct UpsertView {
    pub name: Seq<char>,
    pub base_url: Seq<char>,
    pub critical_css_url: Seq<char>,
    pub external_service_id: Option<Seq<char>>,
    pub service_name: Seq<char>,
    pub domain_type: Seq<char>,
    pub domain: Seq<char>,
}

impl View for SiteUpsert {
    type V = UpsertView;

    open spec fn view(&self) -> UpsertView {
        UpsertView {
            name: self.name@,
            base_url: self.base_url@,
            critical_css_url: self.critical_css_url@,
            external_service_id: opt_text(self.external_service_id),
            service_name: self.service_name@,
            domain_type: self.domain_type@,
            domain: self.domain@,
        }
    }
}

/// The row for `domain` of `service`: a custom domain is named after the
/// service, a Railway domain after the service with ` (Railway)` added; the
/// critical CSS lives at `/static/assets/css/main.css` under the base URL.
pub open spec fn site_upsert_spec(
    service: ServiceView,
    domain: Seq<char>,
    domain_type: Seq<char>,
) -> UpsertView {
    let base_url = domain_to_base_url_spec(domain);
    UpsertView {
        name: if domain_type == "custom"@ {
            service.service_name
        } else {
            service.service_name + " (Railway)"@
        },
        base_url,
        critical_css_url: join_url_spec(base_url, "/static/assets/css/main.css"@),
        external_service_id: service.service_id,
        service_name: service.service_name,
        domain_type,
        domain,
    }
}

/// A copy of an optional string.
fn copy_opt_string(value: &Option<String>) -> (copy: Option<String>)
    ensures
        opt_text(copy) == opt_text(*value),
{
    match value {
        Some(text) => Some(text.clone()),
        None => None,
    }
}

/// The row that the sync writes for `domain` of `service`.
pub fn site_upsert(service: &RailwayService, domain: &str, domain_type: &'static str) -> (row:
    SiteUpsert)
    ensures
        row@ == site_upsert_spec(service@, domain@, domain_type@),
        row.base_url@ == domain_to_base_url_spec(domain@),
        row.critical_css_url@ == join_url_spec(row.base_url@, "/static/assets/css/main.css"@),
        row.name@ == if domain_type@ == "custom"@ {
            service.service_name@
        } else {
            service.service_name@ + " (Railway)"@
        },
        opt_text(row.external_service_id) == opt_text(service.service_id),
        row.service_name@ == service.service_name@,
        row.domain_type == domain_type,
        row.domain@ == domain@,
{
    let base_url = domain_to_base_url(domain);
    let critical_css_url = join_url(base_url.as_str(), "/static/assets/css/main.css");
    let name = if str_equal(domain_type, "custom") {
        service.service_name.clone()
    } else {
        service.service_name.clone().concat(" (Railway)")
    };
    SiteUpsert {
        name,
        base_url,
        critical_css_url,
        external_service_id: copy_opt_string(&service.service_id),
        service_name: service.service_name.clone(),
        domain_type,
        domain: String::from_str(domain),
    }
}

/// A service that the sync passed over because it has no public domain.
pub struct RailwayServiceSummary {
    pub service_name: String,
    pub deployment_status: Option<String>,
    pub instance_statuses: Vec<String>,
}

/// A passed-over service as texts.
pub struct SummaryView {
    pub service_name: Seq<char>,
    pub deployment_status: Option<Seq<char>>,
    pub instance_statuses: Seq<Seq<char>>,
}

impl View for RailwayServiceSummary {
    type V = SummaryView;

    open spec fn view(&self) -> SummaryView {
        SummaryView {
            service_name: self.service_name@,
            deployment_status: opt_text(self.deployment_status),
            instance_statuses: strings_view(self.instance_statuses@),
        }
    }
}

/// The summary of a service without domains.
pub open spec fn summary_spec(service: ServiceView) -> SummaryView {
    SummaryView {
        service_name: service.service_name,
        deployment_status: service.deployment_status,
        instance_statuses: service.instance_statuses,
    }
}

/// What the sync knows after a prefix of the services: the service keys and
/// domains seen so far, in the order first seen, the rows to write and the
/// services passed over for want of a domain.
pub struct SyncState {
    pub seen_services: Seq<Seq<char>>,
    pub seen_domains: Seq<Seq<char>>,
    pub upserts: Seq<UpsertView>,
    pub skipped: Seq<SummaryView>,
}

/// The key by which a service is recognised again: its id, or its name where
/// it has none.
pub open spec fn service_key_spec(service: ServiceView) -> Seq<char> {
    match service.service_id {
        Some(id) => id,
        None => service.service_name,
    }
}

/// The sync state after going through `domains` of `service`: a domain seen
/// before is passed over, a new one is recorded and gets its row.
pub open spec fn add_domains(
    state: SyncState,
    service: ServiceView,
    domains: Seq<(Seq<char>, Seq<char>)>,
) -> SyncState
    decreases domains.len(),
{
    if domains.len() == 0 {
        state
    } else {
        let before = add_domains(state, service, domains.drop_last());
        let (domain, domain_type) = domains.last();
        if before.seen_domains.contains(domain) {
            before
        } else {
            SyncState {
                seen_services: before.seen_services,
                seen_domains: before.seen_domains.push(domain),
                upserts: before.upserts.push(site_upsert_spec(service, domain, domain_type)),
                skipped: before.skipped,
            }
        }
    }
}

/// The sync state after one more service. A service whose key was seen
/// before is passed over; otherwise its key is recorded, and an
/// infrastructure service goes no further, a service without domains is
/// listed as such, and the domains of any other are gone through.
pub open spec fn sync_step(state: SyncState, service: ServiceView) -> SyncState {
    let key = service_key_spec(service);
    if state.seen_services.contains(key) {
        state
    } else {
        let marked = SyncState {
            seen_services: state.seen_services.push(key),
            seen_domains: state.seen_domains,
            upserts: state.upserts,
            skipped: state.skipped,
        };
        if is_infra_spec(service.service_name) {
            marked
        } else if domains_spec(service).len() == 0 {
            SyncState {
                seen_services: marked.seen_services,
                seen_domains: marked.seen_domains,
                upserts: marked.upserts,
                skipped: marked.skipped.push(summary_spec(service)),
            }
        } else {
            add_domains(marked, service, domains_spec(service))
        }
    }
}

/// The sync state after all of `services`, in order.
pub open spec fn sync_spec(services: Seq<ServiceView>) -> SyncState
    decreases services.len(),
{
    if services.len() == 0 {
        SyncState {
            seen_services: Seq::empty(),
            seen_domains: Seq::empty(),
            upserts: Seq::empty(),
            skipped: Seq::empty(),
        }
    } else {
        sync_step(sync_spec(services.drop_last()), services.last())
    }
}

/// What an inventory sync is to do: the rows to write, one per new domain,
/// the number of distinct domains it saw, and the services it passed over
/// for want of a domain.
pub struct RailwaySyncPlan {
    pub upserts: Vec<SiteUpsert>,
    pub domains_seen: usize,
    pub services_without_domains: Vec<RailwayServiceSummary>,
}

/// The views of a sequence of rows.
pub open spec fn upserts_view(rows: Seq<SiteUpsert>) -> Seq<UpsertView> {
    rows.map_values(|row: SiteUpsert| row@)
}

/// The views of a sequence of summaries.
pub open spec fn summaries_view(items: Seq<RailwayServiceSummary>) -> Seq<SummaryView> {
    items.map_values(|item: RailwayServiceSummary| item@)
}

/// Whether `strings` holds `text`.
fn contains_string(strings: &Vec<String>, text: &String) -> (found: bool)
    ensures
        found == strings_view(strings@).contains(text@),
{
    let mut i: usize = 0;
    while i < strings.len()
        invariant
            i <= strings@.len(),
            forall|j: int| 0 <= j < i ==> strings@[j]@ != text@,
        decreases strings@.len() - i,
    {
        if strings[i] == *text {
            assert(strings_view(strings@)[i as int] == text@);
            return true;
        }
        i = i + 1;
    }
    assert forall|j: int| 0 <= j < strings_view(strings@).len() implies strings_view(
        strings@,
    )[j] != text@ by {
        assert(strings_view(strings@)[j] == strings@[j]@);
    }
    false
}

/// The sync state that the planning variables stand for.
pub open spec fn state_of(
    seen_services: Seq<String>,
    seen_domains: Seq<String>,
    upserts: Seq<SiteUpsert>,
    skipped: Seq<RailwayServiceSummary>,
) -> SyncState {
    SyncState {
        seen_services: strings_view(seen_services),
        seen_domains: strings_view(seen_domains),
        upserts: upserts_view(upserts),
        skipped: summaries_view(skipped),
    }
}

/// Plans an inventory sync over the services in the order listed.
pub fn plan_railway_sync(services: Vec<RailwayService>) -> (plan: RailwaySyncPlan)
    ensures
        upserts_view(plan.upserts@) == sync_spec(services_view(services@)).upserts,
        plan.domains_seen == sync_spec(services_view(services@)).seen_domains.len(),
        summaries_view(plan.services_without_domains@) == sync_spec(
            services_view(services@),
        ).skipped,
        plan.domains_seen == plan.upserts@.len(),
{
    let ghost all = services_view(services@);
    let mut remaining = services;
    let mut seen_services: Vec<String> = Vec::new();
    let mut seen_domains: Vec<String> = Vec::new();
    let mut upserts: Vec<SiteUpsert> = Vec::new();
    let mut skipped: Vec<RailwayServiceSummary> = Vec::new();
    let ghost mut done: int = 0;
    proof {
        assert(all.take(0) =~= Seq::<ServiceView>::empty());
        assert(strings_view(seen_services@) =~= Seq::<Seq<char>>::empty());
        assert(strings_view(seen_domains@) =~= Seq::<Seq<char>>::empty());
        assert(upserts_view(upserts@) =~= Seq::<UpsertView>::empty());
        assert(summaries_view(skipped@) =~= Seq::<SummaryView>::empty());
        assert(services_view(remaining@) =~= all.skip(0));
    }
    while remaining.len() > 0
        invariant
            0 <= done <= all.len(),
            remaining@.len() == all.len() - done,
            services_view(remaining@) == all.skip(done),
            state_of(seen_services@, seen_domains@, upserts@, skipped@) == sync_spec(
                all.take(done),
            ),
        decreases remaining@.len(),
    {
        let ghost state = state_of(seen_services@, seen_domains@, upserts@, skipped@);
        let ghost rest = remaining@;
        let service = remaining.remove(0);
        let ghost sv = service@;
        proof {
            assert(services_view(rest)[0] == rest[0]@);
            assert(sv == all[done]);
            assert(all.take(done + 1).drop_last() =~= all.take(done));
            assert forall|k: int| 0 <= k < remaining@.len() implies services_view(remaining@)[k]
                == all.skip(done + 1)[k] by {
                assert(remaining@[k] == rest[k + 1]);
                assert(services_view(rest)[k + 1] == rest[k + 1]@);
                assert(all.skip(done)[k + 1] == all.skip(done + 1)[k]);
            }
            assert(services_view(remaining@) =~= all.skip(done + 1));
        }
        let key = match &service.service_id {
            Some(id) => id.clone(),
            None => service.service_name.clone(),
        };
        assert(key@ == service_key_spec(sv));
        if !contains_string(&seen_services, &key) {
            seen_services.push(key);
            assert(strings_view(seen_services@) =~= state.seen_services.push(
                service_key_spec(sv),
            ));
            if !is_infra_service(service.service_name.as_str()) {
                let domains = service.domains();
                if domains.len() == 0 {
                    skipped.push(
                        RailwayServiceSummary {
                            service_name: service.service_name,
                            deployment_status: service.deployment_status,
                            instance_statuses: service.instance_statuses,
                        },
                    );
                    assert(summaries_view(skipped@) =~= state.skipped.push(summary_spec(sv)));
                } else {
                    let ghost marked = state_of(seen_services@, seen_domains@, upserts@, skipped@);
                    let mut j: usize = 0;
                    while j < domains.len()
                        invariant
                            j <= domains@.len(),
                            domain_pairs_view(domains@) == domains_spec(sv),
                            sv == service@,
                            state_of(seen_services@, seen_domains@, upserts@, skipped@)
                                == add_domains(marked, sv, domains_spec(sv).take(j as int)),
                        decreases domains@.len() - j,
                    {
                        let ghost before = state_of(
                            seen_services@,
                            seen_domains@,
                            upserts@,
                            skipped@,
                        );
                        proof {
                            assert(domains_spec(sv).take(j + 1).drop_last() =~= domains_spec(
                                sv,
                            ).take(j as int));
                            assert(domains_spec(sv).take(j + 1).last() == domain_pairs_view(
                                domains@,
                            )[j as int]);
                        }
                        let domain = &domains[j].0;
                        let domain_type = domains[j].1;
                        if !contains_string(&seen_domains, domain) {
                            seen_domains.push(domain.clone());
                            upserts.push(site_upsert(&service, domain.as_str(), domain_type));
                            assert(strings_view(seen_domains@) =~= before.seen_domains.push(
                                domain@,
                            ));
                            assert(upserts_view(upserts@) =~= before.upserts.push(
                                site_upsert_spec(sv, domain@, domain_type@),
                            ));
                        }
                        j = j + 1;
                    }
                    assert(domains_spec(sv).take(domains@.len() as int) =~= domains_spec(sv));
                }
            }
        }
        proof {
            done = done + 1;
        }
    }
    assert(all.take(done) =~= all);
    proof {
        lemma_sync_writes_each_domain_once(all);
    }
    RailwaySyncPlan {
        domains_seen: seen_domains.len(),
        upserts,
        services_without_domains: skipped,
    }
}

/// The facts that every sync state keeps.
pub open spec fn sync_state_wf(state: SyncState) -> bool {
    &&& state.upserts.len() == state.seen_domains.len()
    &&& forall|i: int| 0 <= i < state.upserts.len() ==> #[trigger] state.upserts[i].domain == state.seen_domains[i]
    &&& state.seen_domains.no_duplicates()
    &&& state.seen_services.no_duplicates()
    &&& forall|i: int| 0 <= i < state.upserts.len() ==> !is_infra_spec(#[trigger] state.upserts[i].service_name)
    &&& forall|i: int| 0 <= i < state.skipped.len() ==> !is_infra_spec(#[trigger] state.skipped[i].service_name)
}

/// Going through the domains of a site service keeps the sync state's facts
/// and leaves the seen services and the passed-over services as they were.
proof fn lemma_add_domains_wf(
    state: SyncState,
    service: ServiceView,
    domains: Seq<(Seq<char>, Seq<char>)>,
)
    requires
        sync_state_wf(state),
        !is_infra_spec(service.service_name),
    ensures
        sync_state_wf(add_domains(state, service, domains)),
        add_domains(state, service, domains).seen_services == state.seen_services,
        add_domains(state, service, domains).skipped == state.skipped,
    decreases domains.len(),
{
    if domains.len() > 0 {
        lemma_add_domains_wf(state, service, domains.drop_last());
        let before = add_domains(state, service, domains.drop_last());
        let (domain, domain_type) = domains.last();
        if !before.seen_domains.contains(domain) {
            let after = add_domains(state, service, domains);
            assert forall|i: int| 0 <= i < after.upserts.len() implies #[trigger] after.upserts[i].domain
                == after.seen_domains[i] by {
                if i < before.upserts.len() {
                    assert(after.upserts[i] == before.upserts[i]);
                    assert(after.seen_domains[i] == before.seen_domains[i]);
                }
            }
            assert forall|i: int| 0 <= i < after.upserts.len() implies !is_infra_spec(
                #[trigger] after.upserts[i].service_name,
            ) by {
                if i < before.upserts.len() {
                    assert(after.upserts[i] == before.upserts[i]);
                }
            }
            assert(after.seen_domains.no_duplicates()) by {
                assert forall|i: int, j: int|
                    0 <= i < after.seen_domains.len() && 0 <= j < after.seen_domains.len() && i
                        != j implies after.seen_domains[i] != after.seen_domains[j] by {
                    if i == before.seen_domains.len() as int {
                        assert(before.seen_domains[j] == after.seen_domains[j]);
                    } else if j == before.seen_domains.len() as int {
                        assert(before.seen_domains[i] == after.seen_domains[i]);
                    }
                }
            }
        }
    }
}

/// Every sync state reached from the start keeps the sync state's facts.
proof fn lemma_sync_spec_wf(services: Seq<ServiceView>)
    ensures
        sync_state_wf(sync_spec(services)),
    decreases services.len(),
{
    if services.len() > 0 {
        lemma_sync_spec_wf(services.drop_last());
        let state = sync_spec(services.drop_last());
        let service = services.last();
        let key = service_key_spec(service);
        if !state.seen_services.contains(key) {
            let marked = SyncState {
                seen_services: state.seen_services.push(key),
                seen_domains: state.seen_domains,
                upserts: state.upserts,
                skipped: state.skipped,
            };
            assert(marked.seen_services.no_duplicates()) by {
                assert forall|i: int, j: int|
                    0 <= i < marked.seen_services.len() && 0 <= j < marked.seen_services.len()
                        && i != j implies marked.seen_services[i] != marked.seen_services[j] by {
                    if i == state.seen_services.len() as int {
                        assert(state.seen_services[j] == marked.seen_services[j]);
                    } else if j == state.seen_services.len() as int {
                        assert(state.seen_services[i] == marked.seen_services[i]);
                    }
                }
            }
            assert(sync_state_wf(marked));
            if !is_infra_spec(service.service_name) {
                if domains_spec(service).len() == 0 {
                    let after = sync_spec(services);
                    assert forall|i: int| 0 <= i < after.skipped.len() implies !is_infra_spec(
                        #[trigger] after.skipped[i].service_name,
                    ) by {
                        if i < marked.skipped.len() {
                            assert(after.skipped[i] == marked.skipped[i]);
                        }
                    }
                } else {
                    lemma_add_domains_wf(marked, service, domains_spec(service));
                }
            }
        }
    }
}

/// Each domain is written once: a sync writes exactly one row per distinct
/// domain it sees, in the order the domains are first seen, so the number of
/// rows written equals the number of domains seen.
pub proof fn lemma_sync_writes_each_domain_once(services: Seq<ServiceView>)
    ensures
        sync_spec(services).upserts.len() == sync_spec(services).seen_domains.len(),
        sync_spec(services).upserts.map_values(|row: UpsertView| row.domain) == sync_spec(
            services,
        ).seen_domains,
        sync_spec(services).seen_domains.no_duplicates(),
{
    lemma_sync_spec_wf(services);
    let state = sync_spec(services);
    assert(state.upserts.map_values(|row: UpsertView| row.domain) =~= state.seen_domains);
}

/// Infrastructure services (Redis, databases) never become monitored sites
/// and are never reported as services without domains.
pub proof fn lemma_sync_passes_over_infrastructure(services: Seq<ServiceView>)
    ensures
        forall|i: int|
            0 <= i < sync_spec(services).upserts.len() ==> !is_infra_spec(
                #[trigger] sync_spec(services).upserts[i].service_name,
            ),
        forall|i: int|
            0 <= i < sync_spec(services).skipped.len() ==> !is_infra_spec(
                #[trigger] sync_spec(services).skipped[i].service_name,
            ),
{
    lemma_sync_spec_wf(services);
}

/// A service is acted on once: the keys of the services seen never repeat,
/// so a service listed twice in the status output is synced only the first
/// time.
pub proof fn lemma_sync_handles_each_service_once(services: Seq<ServiceView>)
    ensures
        sync_spec(services).seen_services.no_duplicates(),
{
    lemma_sync_spec_wf(services);
}

/// Going through domains keeps every domain seen before and sees each of
/// the domains gone through.
proof fn lemma_add_domains_covers(
    state: SyncState,
    service: ServiceView,
    domains: Seq<(Seq<char>, Seq<char>)>,
)
    ensures
        forall|x: Seq<char>|
            state.seen_domains.contains(x) ==> #[trigger] add_domains(
                state,
                service,
                domains,
            ).seen_domains.contains(x),
        forall|j: int|
            0 <= j < domains.len() ==> add_domains(state, service, domains).seen_domains.contains(
                #[trigger] domains[j].0,
            ),
        add_domains(state, service, domains).skipped == state.skipped,
    decreases domains.len(),
{
    if domains.len() > 0 {
        lemma_add_domains_covers(state, service, domains.drop_last());
        let before = add_domains(state, service, domains.drop_last());
        let after = add_domains(state, service, domains);
        assert forall|x: Seq<char>| before.seen_domains.contains(x) implies after.seen_domains.contains(x) by {
            if !before.seen_domains.contains(domains.last().0) {
                let i = choose|i: int| 0 <= i < before.seen_domains.len() && before.seen_domains[i] == x;
                assert(after.seen_domains[i] == x);
            }
        }
        assert forall|j: int| 0 <= j < domains.len() implies after.seen_domains.contains(
            #[trigger] domains[j].0,
        ) by {
            if j < domains.len() - 1 {
                assert(domains.drop_last()[j] == domains[j]);
                assert(before.seen_domains.contains(domains[j].0));
            } else if !before.seen_domains.contains(domains.last().0) {
                assert(after.seen_domains[before.seen_domains.len() as int] == domains.last().0);
            }
        }
    }
}

/// The domains seen and the services passed over only ever grow as the sync
/// goes on.
proof fn lemma_sync_grows(services: Seq<ServiceView>, m: int)
    requires
        0 <= m <= services.len(),
    ensures
        forall|x: Seq<char>|
            sync_spec(services.take(m)).seen_domains.contains(x) ==> #[trigger] sync_spec(
                services,
            ).seen_domains.contains(x),
        forall|x: SummaryView|
            sync_spec(services.take(m)).skipped.contains(x) ==> #[trigger] sync_spec(
                services,
            ).skipped.contains(x),
    decreases services.len(),
{
    if m == services.len() {
        assert(services.take(m) =~= services);
    } else {
        let shorter = services.drop_last();
        assert(shorter.take(m) =~= services.take(m));
        lemma_sync_grows(shorter, m);
        let state = sync_spec(shorter);
        let service = services.last();
        let after = sync_spec(services);
        let key = service_key_spec(service);
        if !state.seen_services.contains(key) && !is_infra_spec(service.service_name) {
            let marked = SyncState {
                seen_services: state.seen_services.push(key),
                seen_domains: state.seen_domains,
                upserts: state.upserts,
                skipped: state.skipped,
            };
            if domains_spec(service).len() == 0 {
                assert forall|x: SummaryView| state.skipped.contains(x) implies after.skipped.contains(x) by {
                    let i = choose|i: int| 0 <= i < state.skipped.len() && state.skipped[i] == x;
                    assert(after.skipped[i] == x);
                }
            } else {
                lemma_add_domains_covers(marked, service, domains_spec(service));
            }
        }
    }
}

/// Every domain of a site service is synced: for the first service with a
/// given key that is not infrastructure, each of its domains is among the
/// domains the sync writes rows for.
pub proof fn lemma_sync_covers_site_domains(services: Seq<ServiceView>, k: int, j: int)
    requires
        0 <= k < services.len(),
        !is_infra_spec(services[k].service_name),
        !sync_spec(services.take(k)).seen_services.contains(service_key_spec(services[k])),
        0 <= j < domains_spec(services[k]).len(),
    ensures
        sync_spec(services).seen_domains.contains(domains_spec(services[k])[j].0),
{
    let service = services[k];
    let prefix = services.take(k + 1);
    assert(prefix.drop_last() =~= services.take(k));
    assert(prefix.last() == service);
    let state = sync_spec(services.take(k));
    let key = service_key_spec(service);
    let marked = SyncState {
        seen_services: state.seen_services.push(key),
        seen_domains: state.seen_domains,
        upserts: state.upserts,
        skipped: state.skipped,
    };
    lemma_add_domains_covers(marked, service, domains_spec(service));
    lemma_sync_grows(services, k + 1);
}

/// Every site service without a domain is reported: the first service with
/// a given key that is not infrastructure and has no domains is listed among
/// the services without domains.
pub proof fn lemma_sync_reports_services_without_domains(services: Seq<ServiceView>, k: int)
    requires
        0 <= k < services.len(),
        !is_infra_spec(services[k].service_name),
        !sync_spec(services.take(k)).seen_services.contains(service_key_spec(services[k])),
        domains_spec(services[k]).len() == 0,
    ensures
        sync_spec(services).skipped.contains(summary_spec(services[k])),
{
    let prefix = services.take(k + 1);
    assert(prefix.drop_last() =~= services.take(k));
    assert(prefix.last() == services[k]);
    let after = sync_spec(prefix);
    assert(after.skipped.last() == summary_spec(services[k]));
    assert(after.skipped[after.skipped.len() - 1] == summary_spec(services[k]));
    lemma_sync_grows(services, k + 1);
}

/// The row for the `j`-th domain of the `k`-th service.
pub open spec fn listed_row(services: Seq<ServiceView>, k: int, j: int) -> UpsertView {
    let (domain, domain_type) = domains_spec(services[k])[j];
    site_upsert_spec(services[k], domain, domain_type)
}

/// Whether `row` is the row for one of the domains of one of `services`.
pub open spec fn is_listed_row(services: Seq<ServiceView>, row: UpsertView) -> bool {
    exists|k: int, j: int|
        0 <= k < services.len() && 0 <= j < domains_spec(services[k]).len() && row
            == #[trigger] listed_row(services, k, j)
}

/// Going through domains keeps the rows there were and adds only rows for
/// the domains gone through.
proof fn lemma_add_domains_rows(
    state: SyncState,
    service: ServiceView,
    domains: Seq<(Seq<char>, Seq<char>)>,
)
    ensures
        add_domains(state, service, domains).upserts.len() >= state.upserts.len(),
        forall|i: int|
            0 <= i < state.upserts.len() ==> #[trigger] add_domains(
                state,
                service,
                domains,
            ).upserts[i] == state.upserts[i],
        forall|i: int|
            state.upserts.len() <= i < add_domains(state, service, domains).upserts.len()
                ==> exists|j: int|
                0 <= j < domains.len() && #[trigger] add_domains(state, service, domains).upserts[i]
                    == site_upsert_spec(service, domains[j].0, domains[j].1),
    decreases domains.len(),
{
    if domains.len() > 0 {
        let shorter = domains.drop_last();
        lemma_add_domains_rows(state, service, shorter);
        let before = add_domains(state, service, shorter);
        let after = add_domains(state, service, domains);
        assert forall|i: int|
            state.upserts.len() <= i < after.upserts.len() implies exists|j: int|
            0 <= j < domains.len() && #[trigger] after.upserts[i] == site_upsert_spec(
                service,
                domains[j].0,
                domains[j].1,
            ) by {
            if i < before.upserts.len() {
                assert(after.upserts[i] == before.upserts[i]);
                let j = choose|j: int|
                    0 <= j < shorter.len() && #[trigger] before.upserts[i] == site_upsert_spec(
                        service,
                        shorter[j].0,
                        shorter[j].1,
                    );
                assert(shorter[j] == domains[j]);
            } else {
                let j = domains.len() - 1;
                assert(after.upserts[i] == site_upsert_spec(service, domains[j].0, domains[j].1));
            }
        }
        assert forall|i: int| 0 <= i < state.upserts.len() implies #[trigger] after.upserts[i]
            == state.upserts[i] by {
            assert(before.upserts[i] == state.upserts[i]);
        }
    }
}

/// Only listed domains are written: every row that a sync writes is the row
/// for one of the domains of one of the services listed.
pub proof fn lemma_sync_writes_only_listed_domains(services: Seq<ServiceView>)
    ensures
        forall|i: int|
            0 <= i < sync_spec(services).upserts.len() ==> is_listed_row(
                services,
                #[trigger] sync_spec(services).upserts[i],
            ),
    decreases services.len(),
{
    if services.len() > 0 {
        let shorter = services.drop_last();
        lemma_sync_writes_only_listed_domains(shorter);
        let state = sync_spec(shorter);
        let after = sync_spec(services);
        let last = services.len() - 1;
        let service = services[last];
        let key = service_key_spec(service);
        let marked = SyncState {
            seen_services: state.seen_services.push(key),
            seen_domains: state.seen_domains,
            upserts: state.upserts,
            skipped: state.skipped,
        };
        lemma_add_domains_rows(marked, service, domains_spec(service));
        assert forall|i: int| 0 <= i < after.upserts.len() implies is_listed_row(
            services,
            #[trigger] after.upserts[i],
        ) by {
            if i < state.upserts.len() {
                assert(after.upserts[i] == state.upserts[i]);
                assert(is_listed_row(shorter, state.upserts[i]));
                let (k, j) = choose|k: int, j: int|
                    0 <= k < shorter.len() && 0 <= j < domains_spec(shorter[k]).len()
                        && state.upserts[i] == #[trigger] listed_row(shorter, k, j);
                assert(shorter[k] == services[k]);
                assert(listed_row(shorter, k, j) == listed_row(services, k, j));
            } else {
                let j = choose|j: int|
                    0 <= j < domains_spec(service).len() && #[trigger] add_domains(
                        marked,
                        service,
                        domains_spec(service),
                    ).upserts[i] == site_upsert_spec(
                        service,
                        domains_spec(service)[j].0,
                        domains_spec(service)[j].1,
                    );
                assert(listed_row(services, last, j) == after.upserts[i]);
            }
        }
    }
}

/// The row written for a domain has the domain's `https://` base URL, and
/// its critical CSS URL is the CSS path joined to that base URL, whatever
/// the kind of domain.
pub proof fn lemma_upsert_css_under_base_url(
    service: ServiceView,
    domain: Seq<char>,
    domain_type: Seq<char>,
)
    ensures
        site_upsert_spec(service, domain, domain_type).base_url == domain_to_base_url_spec(domain),
        site_upsert_spec(service, domain, domain_type).critical_css_url == join_url_spec(
            site_upsert_spec(service, domain, domain_type).base_url,
            "/static/assets/css/main.css"@,
        ),
{
}

/// The kind of a domain changes only the row's name and stored kind: the
/// base URL, the CSS URL, the service id and name are the same for either
/// kind.
pub proof fn lemma_upsert_kind_changes_only_name(
    service: ServiceView,
    domain: Seq<char>,
    first: Seq<char>,
    second: Seq<char>,
)
    ensures
        site_upsert_spec(service, domain, first).base_url == site_upsert_spec(
            service,
            domain,
            second,
        ).base_url,
        site_upsert_spec(service, domain, first).critical_css_url == site_upsert_spec(
            service,
            domain,
            second,
        ).critical_css_url,
        site_upsert_spec(service, domain, first).external_service_id == site_upsert_spec(
            service,
            domain,
            second,
        ).external_service_id,
        site_upsert_spec(service, domain, first).service_name == service.service_name,
        site_upsert_spec(service, domain, first).domain == domain,
{
}

/// A row for a custom domain is named after the service; a row for any
/// other kind of domain is named after the service with ` (Railway)` added.
pub proof fn lemma_upsert_name(service: ServiceView, domain: Seq<char>, domain_type: Seq<char>)
    ensures
        domain_type == "custom"@ ==> site_upsert_spec(service, domain, domain_type).name
            == service.service_name,
        domain_type != "custom"@ ==> site_upsert_spec(service, domain, domain_type).name
            == service.service_name + " (Railway)"@,
{
}

} // verus!
