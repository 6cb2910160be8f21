//! Clients: creating, finding, changing and deleting them.

use crate::database::Database;
use crate::dto::{ClientResponseDto, CreateClientDto, UpdateClientDto};
use crate::error::Error;
use crate::ident::random_id;
use crate::models::text::text_of;
use crate::models::Client;
use crate::ordering::descending;
use crate::repositories::client_repository::{creates_client, updates_client, updates_client_debt};
use crate::repositories::ClientRepository;
use crate::table::{found, has_key, Row};
use crate::temporal::{clock_now, Timestamp};
use vstd::prelude::*;

verus! {

/// The operations on clients.
pub struct ClientService {
    repository: ClientRepository,
}

/// The answers that stand for clients.
pub open spec fn client_responses(clients: Seq<Client>) -> Seq<ClientResponseDto> {
    Seq::new(clients.len(), |i: int| ClientResponseDto::of(clients[i]))
}

/// The answer that stands for a client, where there is one.
pub open spec fn client_response(client: Option<Client>) -> Option<ClientResponseDto> {
    match client {
        Some(c) => Some(ClientResponseDto::of(c)),
        None => None,
    }
}

impl ClientService {
    pub fn new() -> (service: ClientService) {
        ClientService { repository: ClientRepository }
    }

    /// Creates a client at the instant `now` under the identity `id`.
    pub fn create_client_with(
        &self,
        db: &mut Database,
        id: String,
        now: Timestamp,
        dto: CreateClientDto,
    ) -> (r: Result<ClientResponseDto, Error>)
        ensures
            exists|created: Result<Client, Error>|
                {
                    &&& #[trigger] creates_client(
                        old(db)@,
                        final(db)@,
                        created,
                        id@,
                        now,
                        dto.name@,
                        dto.nuit@,
                        dto.contact@,
                        dto.category@,
                        dto.observations@,
                    )
                    &&& r == match created {
                        Ok(client) => Ok::<ClientResponseDto, Error>(
                            ClientResponseDto::of(client),
                        ),
                        Err(e) => Err(e),
                    }
                },
            old(db)@.wf() ==> final(db)@.wf(),
    {
        let created = self.repository.create_with(
            db,
            id,
            now,
            dto.name,
            dto.nuit,
            dto.contact,
            dto.category,
            dto.observations,
        );
        match created {
            Ok(client) => Ok(ClientResponseDto::from(client)),
            Err(e) => Err(e),
        }
    }

    /// Creates a client now, under a fresh identity.
    pub fn create_client(&self, db: &mut Database, dto: CreateClientDto) -> (r: Result<
        ClientResponseDto,
        Error,
    >)
        ensures
            exists|id: Seq<char>, now: Timestamp, created: Result<Client, Error>|
                {
                    &&& #[trigger] creates_client(
                        old(db)@,
                        final(db)@,
                        created,
                        id,
                        now,
                        dto.name@,
                        dto.nuit@,
                        dto.contact@,
                        dto.category@,
                        dto.observations@,
                    )
                    &&& r == match created {
                        Ok(client) => Ok::<ClientResponseDto, Error>(
                            ClientResponseDto::of(client),
                        ),
                        Err(e) => Err(e),
                    }
                },
            old(db)@.wf() ==> final(db)@.wf(),
    {
        let id = random_id();
        let now = clock_now();
        self.create_client_with(db, id, now, dto)
    }

    /// The client `id`, if it is in the store.
    pub fn get_client_by_id(&self, db: &Database, id: &str) -> (r: Result<
        Option<ClientResponseDto>,
        Error,
    >)
        ensures
            r == Ok::<Option<ClientResponseDto>, Error>(
                client_response(found(db@.clients, id@)),
            ),
    {
        match self.repository.get_by_id(db, id) {
            Ok(Some(client)) => Ok(Some(ClientResponseDto::from(client))),
            Ok(None) => Ok(None),
            Err(e) => Err(e),
        }
    }

    /// All clients, latest first.
    pub fn list_clients(&self, db: &Database) -> (r: Result<Vec<ClientResponseDto>, Error>)
        ensures
            r matches Ok(dtos) && dtos@ == client_responses(descending(db@.clients)),
    {
        let clients = match self.repository.list(db) {
            Ok(clients) => clients,
            Err(e) => {
                return Err(e);
            },
        };
        let mut dtos: Vec<ClientResponseDto> = Vec::new();
        let mut i: usize = 0;
        while i < clients.len()
            invariant
                i <= clients.len(),
                dtos.len() == i,
                forall|j: int|
                    0 <= j < i ==> #[trigger] dtos[j] == ClientResponseDto::of(clients[j]),
            decreases clients.len() - i,
        {
            dtos.push(ClientResponseDto::from(clients[i].duplicate()));
            i += 1;
        }
        assert(dtos@ =~= client_responses(clients@));
        Ok(dtos)
    }

    /// Changes the client `id` at the instant `now`.
    pub fn update_client_at(
        &self,
        db: &mut Database,
        now: Timestamp,
        id: &str,
        dto: UpdateClientDto,
    ) -> (r: Result<Option<ClientResponseDto>, Error>)
        ensures
            exists|updated: Result<Option<Client>, Error>|
                {
                    &&& #[trigger] updates_client(
                        old(db)@,
                        final(db)@,
                        updated,
                        now,
                        id@,
                        text_of(dto.name),
                        text_of(dto.nuit),
                        text_of(dto.contact),
                        text_of(dto.category),
                        text_of(dto.observations),
                    )
                    &&& r == match updated {
                        Ok(client) => Ok::<Option<ClientResponseDto>, Error>(
                            client_response(client),
                        ),
                        Err(e) => Err(e),
                    }
                },
            old(db)@.wf() ==> final(db)@.wf(),
    {
        let updated = self.repository.update_at(
            db,
            now,
            id,
            dto.name,
            dto.nuit,
            dto.contact,
            dto.category,
            dto.observations,
        );
        match updated {
            Ok(Some(client)) => Ok(Some(ClientResponseDto::from(client))),
            Ok(None) => Ok(None),
            Err(e) => Err(e),
        }
    }

    /// Changes the client `id` now.
    pub fn update_client(&self, db: &mut Database, id: &str, dto: UpdateClientDto) -> (r: Result<
        Option<ClientResponseDto>,
        Error,
    >)
        ensures
            exists|now: Timestamp, updated: Result<Option<Client>, Error>|
                {
                    &&& #[trigger] updates_client(
                        old(db)@,
                        final(db)@,
                        updated,
                        now,
                        id@,
                        text_of(dto.name),
                        text_of(dto.nuit),
                        text_of(dto.contact),
                        text_of(dto.category),
                        text_of(dto.observations),
                    )
                    &&& r == match updated {
                        Ok(client) => Ok::<Option<ClientResponseDto>, Error>(
                            client_response(client),
                        ),
                        Err(e) => Err(e),
                    }
                },
            old(db)@.wf() ==> final(db)@.wf(),
    {
        let now = clock_now();
        self.update_client_at(db, now, id, dto)
    }

    /// Deletes the client `id` with its orders and all that belongs to
    /// them. Returns whether there was such a client.
    pub fn delete_client(&self, db: &mut Database, id: &str) -> (r: Result<bool, Error>)
        ensures
            r == Ok::<bool, Error>(has_key(old(db)@.clients, id@)),
            final(db)@ == old(db)@.without_client(id@),
            old(db)@.wf() ==> final(db)@.wf(),
    {
        self.repository.delete(db, id)
    }

    /// Brings the debt of the client `client_id` up to date at the instant
    /// `now`. Returns whether there was such a client.
    pub fn update_client_debt_at(&self, db: &mut Database, now: Timestamp, client_id: &str) -> (r:
        Result<bool, Error>)
        ensures
            updates_client_debt(old(db)@, final(db)@, r, now, client_id@),
            old(db)@.wf() ==> final(db)@.wf(),
    {
        self.repository.update_client_debt_at(db, now, client_id)
    }

    /// Brings the debt of the client `client_id` up to date now.
    pub fn update_client_debt(&self, db: &mut Database, client_id: &str) -> (r: Result<
        bool,
        Error,
    >)
        ensures
            exists|now: Timestamp| updates_client_debt(old(db)@, final(db)@, r, now, client_id@),
            old(db)@.wf() ==> final(db)@.wf(),
    {
        self.repository.update_client_debt(db, client_id)
    }
}

} // verus!
